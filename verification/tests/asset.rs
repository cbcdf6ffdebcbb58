use soroban_sdk::Symbol;
use stellarflow_contracts::asset::{
    asset_id_from_payload, asset_id_to_symbol, currency_of_asset_id, symbol_to_asset_id, symbol_to_asset_id_const,
    Currency, ID_GHS, ID_NGN, ID_UGX,
};

#[test]
fn const_ids_are_fnv1a_of_codes() {
    assert_eq!(symbol_to_asset_id_const(b"NGN"), ID_NGN);
    assert_eq!(symbol_to_asset_id_const(b"NGN"), 2447021828);
    assert_eq!(symbol_to_asset_id_const(b"GHS"), ID_GHS);
    assert_eq!(symbol_to_asset_id_const(b""), 2166136261);
    assert_eq!(symbol_to_asset_id_const(b"a"), 0xe40c292c);
}

#[test]
#[allow(deprecated)]
fn symbol_ids_hash_the_host_payload() {
    assert_eq!(symbol_to_asset_id(&Symbol::short("NGN")), 303994223);
    assert_eq!(symbol_to_asset_id(&Symbol::short("UGX")), 3788880796);
    assert_eq!(asset_id_from_payload(0x194990e), 303994223);
    assert_eq!(asset_id_from_payload(0), 0x9be17165);
}

#[test]
#[allow(deprecated)]
fn ids_map_back_to_symbols() {
    assert_eq!(asset_id_to_symbol(ID_NGN), Symbol::short("NGN"));
    assert_eq!(asset_id_to_symbol(ID_UGX), Symbol::short("UGX"));
    assert_eq!(asset_id_to_symbol(3219226362), Symbol::short("ZAR"));
    assert_eq!(currency_of_asset_id(4160749568), Some(Currency::CFA));
    assert_eq!(currency_of_asset_id(12345), None);
    assert_eq!(Currency::KES.code(), "KES");
}

#[test]
#[allow(deprecated)]
fn symbols_round_trip_through_ids() {
    for code in ["NGN", "GHS", "CFA", "KES", "ZAR", "UGX"] {
        let symbol = Symbol::short(code);
        let id = symbol_to_asset_id(&symbol);
        assert_eq!(asset_id_to_symbol(id), symbol);
        assert_eq!(symbol_to_asset_id(&asset_id_to_symbol(id)), id);
    }
    assert_eq!(currency_of_asset_id(303994223), Some(Currency::NGN));
    assert_eq!(currency_of_asset_id(2699528942), Some(Currency::GHS));
    assert_eq!(currency_of_asset_id(3788880796), Some(Currency::UGX));
}
