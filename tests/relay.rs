use near_sdk::serde_json::{self, Value};
use near_sdk::{AccountId, PromiseError};
use price_relay::json::{encode_asset_ids_args, encode_price_data};
use price_relay::relay::{render, respond, Contract, RelayError, CALLBACK_TGAS, ORACLE_CALL_TGAS};
use price_relay::types::{AssetOptionalPrice, Price, PriceData};

fn oracle() -> AccountId {
    "priceoracle.testnet".parse().unwrap()
}

fn quote(id: &str, price: Option<(u128, u8)>) -> AssetOptionalPrice {
    AssetOptionalPrice {
        asset_id: id.to_string(),
        price: price.map(|(multiplier, decimals)| Price { multiplier, decimals }),
    }
}

fn usd_snapshot() -> PriceData {
    PriceData {
        timestamp: 1700000000000,
        recency_duration_sec: 60,
        prices: vec![quote("USD", Some((100000000, 8)))],
    }
}

#[test]
fn single_usd_quote_is_encoded_exactly() {
    let c = Contract::init(oracle());
    let out = c.query_price_data_callback(Ok(usd_snapshot()));
    assert_eq!(
        out,
        "{\"timestamp\":\"1700000000000\",\"recency_duration_sec\":60,\"prices\":[{\"asset_id\":\"USD\",\"price\":{\"multiplier\":\"100000000\",\"decimals\":8}}]}"
    );
}

#[test]
fn failed_call_gives_fetch_sentinel() {
    let c = Contract::init(oracle());
    assert_eq!(c.query_price_data_callback(Err(PromiseError::Failed)), "Error fetching price data");
}

#[test]
fn overlong_reply_gives_fetch_sentinel() {
    let c = Contract::init(oracle());
    assert_eq!(c.query_price_data_callback(Err(PromiseError::TooLong(5000))), "Error fetching price data");
}

#[test]
fn empty_price_list_is_an_empty_array() {
    let c = Contract::init(oracle());
    let d = PriceData { timestamp: 0, recency_duration_sec: 0, prices: vec![] };
    assert_eq!(
        c.query_price_data_callback(Ok(d)),
        "{\"timestamp\":\"0\",\"recency_duration_sec\":0,\"prices\":[]}"
    );
}

#[test]
fn missing_price_is_null_beside_present_ones() {
    let d = PriceData {
        timestamp: 12,
        recency_duration_sec: 90,
        prices: vec![quote("wrap.near", None), quote("usdt.near", Some((999, 6)))],
    };
    assert_eq!(
        encode_price_data(&d),
        "{\"timestamp\":\"12\",\"recency_duration_sec\":90,\"prices\":[{\"asset_id\":\"wrap.near\",\"price\":null},{\"asset_id\":\"usdt.near\",\"price\":{\"multiplier\":\"999\",\"decimals\":6}}]}"
    );
}

#[test]
fn serialization_failure_gives_its_sentinel() {
    assert_eq!(render(Err(RelayError::SerializationFailure)), "Error serializing price data");
    assert_eq!(RelayError::SerializationFailure.message(), "Error serializing price data");
}

#[test]
fn fetch_failure_keeps_its_kind() {
    assert_eq!(respond(Err(PromiseError::Failed)), Err(RelayError::RemoteCallFailure));
    assert_eq!(render(Err(RelayError::RemoteCallFailure)), "Error fetching price data");
}

#[test]
fn success_response_renders_as_itself() {
    let text = respond(Ok(usd_snapshot())).unwrap();
    assert_eq!(text, encode_price_data(&usd_snapshot()));
    assert_eq!(render(Ok(text.clone())), text);
}

#[test]
fn encoding_twice_is_identical() {
    let d = usd_snapshot();
    assert_eq!(encode_price_data(&d), encode_price_data(&d));
}

#[test]
fn extreme_values_keep_every_digit() {
    let d = PriceData {
        timestamp: u64::MAX,
        recency_duration_sec: u32::MAX,
        prices: vec![quote("big", Some((u128::MAX, 255))), quote("zero", Some((0, 0)))],
    };
    let out = encode_price_data(&d);
    assert_eq!(
        out,
        format!(
            "{{\"timestamp\":\"{}\",\"recency_duration_sec\":{},\"prices\":[{{\"asset_id\":\"big\",\"price\":{{\"multiplier\":\"{}\",\"decimals\":255}}}},{{\"asset_id\":\"zero\",\"price\":{{\"multiplier\":\"0\",\"decimals\":0}}}}]}}",
            u64::MAX,
            u32::MAX,
            u128::MAX
        )
    );
}

#[test]
fn asset_ids_are_escaped() {
    let d = PriceData {
        timestamp: 1,
        recency_duration_sec: 2,
        prices: vec![quote("a\"b\\c\nd\te\u{1}f\u{1f}é€", None)],
    };
    assert_eq!(
        encode_price_data(&d),
        "{\"timestamp\":\"1\",\"recency_duration_sec\":2,\"prices\":[{\"asset_id\":\"a\\\"b\\\\c\\nd\\te\\u0001f\\u001fé€\",\"price\":null}]}"
    );
}

#[test]
fn control_escapes_match_serde_json() {
    let id = "\u{8}\u{c}\r\u{0}\u{7f}/x";
    let d = PriceData { timestamp: 1, recency_duration_sec: 2, prices: vec![quote(id, None)] };
    let expected = format!(
        "{{\"timestamp\":\"1\",\"recency_duration_sec\":2,\"prices\":[{{\"asset_id\":{},\"price\":null}}]}}",
        serde_json::to_string(id).unwrap()
    );
    assert_eq!(encode_price_data(&d), expected);
}

#[test]
fn encoded_text_parses_back_to_the_snapshot() {
    let d = PriceData {
        timestamp: 1700000000123456789,
        recency_duration_sec: 60,
        prices: vec![
            quote("USD", Some((u128::MAX - 1, 8))),
            quote("USD", None),
            quote("q\"uote", Some((7, 0))),
        ],
    };
    let v: Value = serde_json::from_str(&encode_price_data(&d)).unwrap();
    assert_eq!(v["timestamp"].as_str().unwrap().parse::<u64>().unwrap(), d.timestamp);
    assert_eq!(v["recency_duration_sec"].as_u64().unwrap(), 60);
    let prices = v["prices"].as_array().unwrap();
    assert_eq!(prices.len(), 3);
    for (item, q) in prices.iter().zip(d.prices.iter()) {
        assert_eq!(item["asset_id"].as_str().unwrap(), q.asset_id);
        match q.price {
            None => assert!(item["price"].is_null()),
            Some(p) => {
                assert_eq!(item["price"]["multiplier"].as_str().unwrap().parse::<u128>().unwrap(), p.multiplier);
                assert_eq!(item["price"]["decimals"].as_u64().unwrap(), p.decimals as u64);
            }
        }
    }
}

#[test]
fn query_for_all_assets_passes_null() {
    let c = Contract::init(oracle());
    let q = c.query_price_feed();
    assert_eq!(q.oracle, oracle());
    assert_eq!(q.method_name, "get_price_data");
    assert_eq!(q.args, "{\"asset_ids\":null}");
    assert_eq!(q.oracle_gas_tgas, 5);
    assert_eq!(q.callback_method, "query_price_data_callback");
    assert_eq!(q.callback_gas_tgas, 5);
    assert_eq!(ORACLE_CALL_TGAS, 5);
    assert_eq!(CALLBACK_TGAS, 5);
}

#[test]
fn query_for_listed_assets_keeps_their_order() {
    let c = Contract::init(oracle());
    let q = c.request_prices(Some(vec!["wrap.near".to_string(), "a\"b".to_string(), "wrap.near".to_string()]));
    assert_eq!(q.args, "{\"asset_ids\":[\"wrap.near\",\"a\\\"b\",\"wrap.near\"]}");
    let empty = c.request_prices(Some(vec![]));
    assert_eq!(empty.args, "{\"asset_ids\":[]}");
    assert_eq!(encode_asset_ids_args(&None), "{\"asset_ids\":null}");
}
