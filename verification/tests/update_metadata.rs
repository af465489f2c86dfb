use cw_web31_dns::contract::{execute, query, QueryAnswer};
use cw_web31_dns::error::ContractError;
use cw_web31_dns::execute::Context;
use cw_web31_dns::models::{Config, ImageAsset, NameMetadata, PublicNameRecord};
use cw_web31_dns::msg::{ExecuteMsg, InstantiateMsg, QueryMsg, RegisterMsg, UpdateMetadataMsg};
use cw_web31_dns::state::{init, RegistryStore};
use cw_web31_dns::token::{Coin, Token, TokenAmount};

fn juno_addr(tag: &str) -> String {
    let hrp = bech32::Hrp::parse("juno").unwrap();
    bech32::encode::<bech32::Bech32>(hrp, tag.as_bytes()).unwrap()
}

fn ctx(sender: &str, funds: Vec<Coin>) -> Context {
    Context { sender: sender.to_string(), funds, time: 1_000_000_000 }
}

fn coins(amount: u128, denom: &str) -> Vec<Coin> {
    vec![Coin { denom: denom.to_string(), amount }]
}

fn get_record(store: &RegistryStore, config: &Config, name: &str) -> PublicNameRecord {
    match query(store, config, QueryMsg::NameRecord { contract: name.to_string() }).unwrap() {
        QueryAnswer::NameRecord(Some(record)) => record,
        _ => panic!("record not found"),
    }
}

#[test]
fn test_exec_update_metadata() {
    let name_owner = "name_owner".to_string();
    let owner_str = "owner".to_string();
    let config = init(InstantiateMsg {
        price: TokenAmount { token: Token::Denom("juno".to_string()), amount: 1 },
        fee_recipient: "fee_recipient".to_string(),
        max_name_len: 10,
    });
    let mut store = RegistryStore::new();

    //register a name
    let name = "example".to_string();
    let site_address = juno_addr("example_site_cw_address");
    let reg_msg = ExecuteMsg::Register(RegisterMsg {
        owner: name_owner.clone(),
        name: name.clone(),
        address: site_address,
        meta: None,
    });
    execute(&mut store, &config, ctx(&name_owner, coins(1, "juno")), reg_msg).unwrap();

    //query the name metadata
    let resp = get_record(&store, &config, &name);
    println!("resp: {:?}", resp);
    assert_eq!(resp.meta.title, None);
    assert_eq!(resp.meta.description, None);
    assert_eq!(resp.meta.favicon, None);
    assert_eq!(resp.meta.logo, None);
    assert_eq!(resp.meta.keywords, None);

    //update the metadata
    let update_msg = UpdateMetadataMsg {
        name: name.to_string(),
        meta: NameMetadata {
            title: Some("example_title".to_string()),
            description: Some("example_description".to_string()),
            favicon: None,
            logo: None,
            keywords: None,
        },
    };
    execute(
        &mut store,
        &config,
        ctx(&name_owner, vec![]),
        ExecuteMsg::UpdateMetadata(update_msg),
    )
    .unwrap();

    //query the name metadata
    let resp = get_record(&store, &config, &name);
    println!("resp: {:?}", resp);
    assert_eq!(resp.meta.title, Some("example_title".to_string()));
    assert_eq!(resp.meta.description, Some("example_description".to_string()));
    assert_eq!(resp.meta.favicon, None);
    assert_eq!(resp.meta.logo, None);
    assert_eq!(resp.meta.keywords, None);

    //update the metadata
    let update_msg = UpdateMetadataMsg {
        name: name.to_string(),
        meta: NameMetadata {
            title: None,
            description: None,
            favicon: Some(ImageAsset::Url("example_favicon_url".to_string())),
            logo: Some(ImageAsset::Url("example_logo_url".to_string())),
            keywords: Some(vec![
                "example_keyword1".to_string(),
                "example_keyword2".to_string(),
            ]),
        },
    };
    execute(
        &mut store,
        &config,
        ctx(&name_owner, vec![]),
        ExecuteMsg::UpdateMetadata(update_msg),
    )
    .unwrap();

    //query the name metadata
    let resp = get_record(&store, &config, &name);
    println!("resp: {:?}", resp);
    assert_eq!(resp.meta.title, Some("example_title".to_string()));
    assert_eq!(resp.meta.description, Some("example_description".to_string()));
    assert_eq!(
        resp.meta.favicon,
        Some(ImageAsset::Url("example_favicon_url".to_string()))
    );
    assert_eq!(resp.meta.logo, Some(ImageAsset::Url("example_logo_url".to_string())));
    assert_eq!(
        resp.meta.keywords,
        Some(vec![
            "example_keyword1".to_string(),
            "example_keyword2".to_string(),
        ])
    );

    //clean the keywords metadata
    let update_msg = UpdateMetadataMsg {
        name: name.to_string(),
        meta: NameMetadata {
            title: None,
            description: None,
            favicon: None,
            logo: None,
            keywords: Some(vec![]),
        },
    };
    execute(
        &mut store,
        &config,
        ctx(&name_owner, vec![]),
        ExecuteMsg::UpdateMetadata(update_msg),
    )
    .unwrap();

    //query the name metadata
    let resp = get_record(&store, &config, &name);
    println!("resp: {:?}", resp);
    assert_eq!(resp.meta.title, Some("example_title".to_string()));
    assert_eq!(resp.meta.description, Some("example_description".to_string()));
    assert_eq!(
        resp.meta.favicon,
        Some(ImageAsset::Url("example_favicon_url".to_string()))
    );
    assert_eq!(resp.meta.logo, Some(ImageAsset::Url("example_logo_url".to_string())));
    assert_eq!(resp.meta.keywords, Some(vec![]));

    //check error when updating metadata of non owner
    let update_msg = UpdateMetadataMsg {
        name: name.to_string(),
        meta: NameMetadata {
            title: None,
            description: None,
            favicon: None,
            logo: None,
            keywords: Some(vec![]),
        },
    };
    let err = execute(
        &mut store,
        &config,
        ctx(&owner_str, vec![]),
        ExecuteMsg::UpdateMetadata(update_msg),
    )
    .unwrap_err();

    assert_eq!(
        ContractError::NotAuthorized {
            reason: "You are not the owner of this name".to_string(),
        },
        err
    );

    //query the name metadata
    let resp = get_record(&store, &config, &name);
    println!("resp: {:?}", resp);
    assert_eq!(resp.meta.title, Some("example_title".to_string()));
    assert_eq!(resp.meta.description, Some("example_description".to_string()));
    assert_eq!(
        resp.meta.favicon,
        Some(ImageAsset::Url("example_favicon_url".to_string()))
    );
    assert_eq!(resp.meta.logo, Some(ImageAsset::Url("example_logo_url".to_string())));
    assert_eq!(resp.meta.keywords, Some(vec![]));

    //check title length validation
    let update_msg = UpdateMetadataMsg {
        name: name.to_string(),
        meta: NameMetadata {
            title: Some("a".repeat(NameMetadata::MAX_TITLE_LEN + 1)),
            description: None,
            favicon: None,
            logo: None,
            keywords: None,
        },
    };
    let err = execute(
        &mut store,
        &config,
        ctx(&name_owner, vec![]),
        ExecuteMsg::UpdateMetadata(update_msg),
    )
    .unwrap_err();

    assert_eq!(
        ContractError::ValidationError {
            reason: format!("Title must be less than {} characters", NameMetadata::MAX_TITLE_LEN),
        },
        err
    );

    //query the name metadata
    let resp = get_record(&store, &config, &name);
    println!("resp: {:?}", resp);
    assert_eq!(resp.meta.title, Some("example_title".to_string()));
    assert_eq!(resp.meta.description, Some("example_description".to_string()));
    assert_eq!(
        resp.meta.favicon,
        Some(ImageAsset::Url("example_favicon_url".to_string()))
    );
    assert_eq!(resp.meta.logo, Some(ImageAsset::Url("example_logo_url".to_string())));
    assert_eq!(resp.meta.keywords, Some(vec![]));
}
