use cw_web31_dns::contract::{execute, query, QueryAnswer};
use cw_web31_dns::error::ContractError;
use cw_web31_dns::execute::Context;
use cw_web31_dns::models::{Config, ImageAsset, NameMetadata};
use cw_web31_dns::msg::{
    ExecuteMsg, InstantiateMsg, NameRecordsQueryMsg, NameRecordsQueryResponse, QueryMsg,
    RegisterMsg,
};
use cw_web31_dns::query::name_records::MAX_REQUEST_LIMIT;
use cw_web31_dns::state::{init, RegistryStore};
use cw_web31_dns::token::{Coin, Token, TokenAmount};

fn addr_with_prefix(prefix: &str, tag: &str) -> String {
    let hrp = bech32::Hrp::parse(prefix).unwrap();
    bech32::encode::<bech32::Bech32>(hrp, tag.as_bytes()).unwrap()
}

fn ctx(sender: &str, funds: Vec<Coin>) -> Context {
    Context { sender: sender.to_string(), funds, time: 1_000_000_000 }
}

fn coins(amount: u128, denom: &str) -> Vec<Coin> {
    vec![Coin { denom: denom.to_string(), amount }]
}

fn page(
    store: &RegistryStore,
    config: &Config,
    msg: NameRecordsQueryMsg,
) -> Result<NameRecordsQueryResponse, ContractError> {
    match query(store, config, QueryMsg::NameRecords(msg))? {
        QueryAnswer::NameRecords(resp) => Ok(resp),
        _ => panic!("unexpected answer"),
    }
}

#[test]
fn test_query_name_records() {
    let name_owner = "name_owner".to_string();
    let config = init(InstantiateMsg {
        price: TokenAmount { token: Token::Denom("juno".to_string()), amount: 1 },
        fee_recipient: "fee_recipient".to_string(),
        max_name_len: 10,
    });
    let mut store = RegistryStore::new();

    // register 10 names
    let network_den = "juno";
    for i in 0..10 {
        let name = format!("example{}", i);
        let site_address = addr_with_prefix(network_den, &format!("example_site_address{}", i));
        println!("site_address: {:?}", site_address);
        let reg_msg = ExecuteMsg::Register(RegisterMsg {
            owner: name_owner.clone(),
            name: name.clone(),
            address: site_address.clone(),
            meta: Some(NameMetadata {
                title: Some(format!("example_title{}", i)),
                description: Some(format!("example_description{}", i)),
                favicon: Some(ImageAsset::Url(format!("example_favicon_url{}", i))),
                logo: Some(ImageAsset::Url(format!("example_logo_url{}", i))),
                keywords: Some(vec![format!("example_keyword{}", i)]),
            }),
        });
        execute(&mut store, &config, ctx(&name_owner, coins(1, "juno")), reg_msg).unwrap();
    }

    //query the records filtered by the juno prefix
    let name_records_msg = page(
        &store,
        &config,
        NameRecordsQueryMsg {
            limit: 10,
            cursor: None,
            network_prefix: Some("juno".to_string()),
        },
    )
    .unwrap();
    assert_eq!(name_records_msg.name_records.len(), 10);
    //check all the names
    for i in 0..10 {
        let name = format!("example{}", i);
        let site_address = addr_with_prefix(network_den, &format!("example_site_address{}", i));
        assert_eq!(name_records_msg.name_records[i].cannonical_name, name);
        assert_eq!(name_records_msg.name_records[i].contract, site_address);
    }
    // the scan consumed the whole store, so no cursor is returned
    assert_eq!(name_records_msg.next_cursor, None);

    //query resuming after the last name, expecting an empty page
    let name_records_msg = page(
        &store,
        &config,
        NameRecordsQueryMsg {
            limit: 10,
            cursor: Some("example9".to_string()),
            network_prefix: None,
        },
    )
    .unwrap();
    assert_eq!(name_records_msg.name_records.len(), 0);
    assert_eq!(name_records_msg.next_cursor, None);

    //query the names expecting 5 names
    let name_records_msg = page(
        &store,
        &config,
        NameRecordsQueryMsg { limit: 5, cursor: None, network_prefix: None },
    )
    .unwrap();
    let next_cursor = name_records_msg.next_cursor.clone();
    assert_eq!(name_records_msg.name_records.len(), 5);
    assert_eq!(next_cursor, Some("example4".to_string()));

    //query the names expecting the last 5 names
    let name_records_msg = page(
        &store,
        &config,
        NameRecordsQueryMsg { limit: 10, cursor: next_cursor, network_prefix: None },
    )
    .unwrap();
    assert_eq!(name_records_msg.name_records.len(), 5);
    for i in 5..10 {
        let name = format!("example{}", i);
        let site_address = addr_with_prefix(network_den, &format!("example_site_address{}", i));
        assert_eq!(name_records_msg.name_records[i - 5].cannonical_name, name);
        assert_eq!(name_records_msg.name_records[i - 5].contract, site_address);
    }
    assert_eq!(name_records_msg.next_cursor, None);

    // query the names with another network_den expecting 0 names
    let name_records_msg = page(
        &store,
        &config,
        NameRecordsQueryMsg {
            limit: 10,
            cursor: None,
            network_prefix: Some("osmo".to_string()),
        },
    )
    .unwrap();
    assert_eq!(name_records_msg.name_records.len(), 0);

    //query the records with error TooManyRecords
    let resp = page(
        &store,
        &config,
        NameRecordsQueryMsg { limit: 31, cursor: None, network_prefix: None },
    );
    println!("resp: {:?}", resp);
    assert_eq!(resp.is_err(), true);
    assert_eq!(
        resp.err().unwrap(),
        ContractError::TooManyRecords { limit: MAX_REQUEST_LIMIT }
    );

    //query the records with error NotFound
    let resp = page(
        &store,
        &config,
        NameRecordsQueryMsg {
            limit: 10,
            cursor: Some("not_added".to_string()),
            network_prefix: None,
        },
    );
    println!("resp: {:?}", resp);
    assert_eq!(resp.is_err(), true);
    assert_eq!(
        resp.err().unwrap(),
        ContractError::NotFound { reason: "Name not_added not found".to_string() }
    );
}
