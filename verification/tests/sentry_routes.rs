use adex_validator_stack::campaign::{CampaignLoad, ResponseError, RouteParams};
use adex_validator_stack::channel_routes::{default_limit, default_page, validator_filter, ChannelController};
use adex_validator_stack::ids::CampaignId;

#[test]
fn campaign_loading() {
    let campaign_load = CampaignLoad;
    let campaign_id = CampaignId([0x93, 0x6d, 0xa0, 0x1f, 0x9a, 0xbd, 0x4d, 0x9d, 0x80, 0xc7, 0x02, 0xaf, 0x85, 0xc8, 0x22, 0xa8]);

    // bad CampaignId
    {
        let route_params = RouteParams(vec!["Bad campaign Id".to_string()]);
        let res = campaign_load
            .campaign_id(Some(&route_params))
            .expect_err("Should return error for Bad Campaign");
        assert_eq!(ResponseError::BadRequest("Wrong Campaign Id".to_string()), res);
    }

    let route_params = RouteParams(vec![campaign_id.to_string()]);
    // non-existent campaign
    {
        let id = campaign_load.campaign_id(Some(&route_params)).expect("Should parse the id");
        assert_eq!(id, campaign_id);
        let res = campaign_load
            .loaded::<CampaignId>(None)
            .expect_err("Should return error for Not Found");
        assert!(matches!(res, ResponseError::NotFound));
    }

    // existing Campaign
    {
        let id = campaign_load.campaign_id(Some(&route_params)).expect("Should parse the id");
        let loaded = campaign_load.loaded(Some(id)).expect("Should load campaign");
        assert_eq!(loaded, campaign_id);
    }
}

#[test]
fn campaign_id_needs_route_params() {
    let campaign_load = CampaignLoad;
    assert_eq!(
        campaign_load.campaign_id(None),
        Err(ResponseError::BadRequest("Route params not found".to_string()))
    );
    assert_eq!(
        campaign_load.campaign_id(Some(&RouteParams(vec![]))),
        Err(ResponseError::BadRequest("No id".to_string()))
    );
    assert_eq!(RouteParams(vec!["a".to_string()]).get(1), None);
}

#[test]
fn channel_create_response_and_list_defaults() {
    let app = ();
    let controller = ChannelController::new(&app);
    assert!(controller.create_response::<()>(Ok(true)).success);
    assert!(!controller.create_response::<()>(Ok(false)).success);
    assert!(!controller.create_response(Err("unreachable adapter")).success);
    assert_eq!(default_page(), 1);
    assert_eq!(default_limit(), 1);
    assert_eq!(validator_filter(String::new()), None);
    assert_eq!(validator_filter("0xabc".to_string()), Some("0xabc".to_string()));
}
