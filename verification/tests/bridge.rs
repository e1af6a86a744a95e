use exo_programs::bridge::{
    initialize, pause, proxy_bridge_burn, proxy_bridge_mint, unpause, BaseAccount, BridgeRequest,
    BridgedToken, ErrorCode, Step, Transfer,
};
use exo_programs::pubkey::Pubkey;

fn key(b: u8) -> Pubkey {
    Pubkey::new([b; 32])
}

const OWNER: u8 = 1;
const EXO: u8 = 2;
const GCRED: u8 = 3;
const TO: u8 = 4;

fn fresh() -> BaseAccount {
    initialize(key(OWNER), key(EXO), key(GCRED))
}

#[test]
fn bridge_initialize() {
    let base = fresh();
    assert_eq!(base, BaseAccount { owner_role: key(OWNER), exo_mint: key(EXO), gcred_mint: key(GCRED), paused: false });
}

#[test]
fn bridge_routes_mint_by_token() {
    let base = fresh();
    assert_eq!(
        proxy_bridge_mint(&base, key(OWNER), key(EXO), key(TO), "15", "0xabc".to_string()),
        Ok(BridgeRequest {
            token: BridgedToken::Exo,
            event: Transfer { from: key(OWNER), to: key(TO), target: "0xabc".to_string(), amount: 15, step: Step::Mint },
        })
    );
    let r = proxy_bridge_mint(&base, key(OWNER), key(GCRED), key(TO), "16", "t".to_string()).unwrap();
    assert_eq!(r.token, BridgedToken::Gcred);
    assert_eq!(r.event.amount, 16);
}

#[test]
fn bridge_routes_burn_by_token() {
    let base = fresh();
    let r = proxy_bridge_burn(&base, key(OWNER), key(GCRED), key(TO), "3", "dest".to_string()).unwrap();
    assert_eq!(r.token, BridgedToken::Gcred);
    assert_eq!(r.event, Transfer { from: key(OWNER), to: key(TO), target: "dest".to_string(), amount: 3, step: Step::Burn });
    let r = proxy_bridge_burn(&base, key(OWNER), key(EXO), key(TO), "4", "dest".to_string()).unwrap();
    assert_eq!(r.token, BridgedToken::Exo);
}

#[test]
fn bridge_refusals() {
    let mut base = fresh();
    assert_eq!(proxy_bridge_mint(&base, key(9), key(EXO), key(TO), "1", String::new()), Err(ErrorCode::NotOwnerRole));
    assert_eq!(proxy_bridge_burn(&base, key(9), key(EXO), key(TO), "1", String::new()), Err(ErrorCode::NotOwnerRole));
    // an unknown mint is refused before the amount is read
    assert_eq!(proxy_bridge_mint(&base, key(OWNER), key(8), key(TO), "bad", String::new()), Err(ErrorCode::NotCorrectTokenAddress));
    assert_eq!(proxy_bridge_burn(&base, key(OWNER), key(8), key(TO), "bad", String::new()), Err(ErrorCode::NotCorrectTokenAddress));
    assert_eq!(pause(&mut base), Ok(()));
    assert_eq!(proxy_bridge_mint(&base, key(OWNER), key(EXO), key(TO), "1", String::new()), Err(ErrorCode::ContractPaused));
    assert_eq!(proxy_bridge_burn(&base, key(OWNER), key(EXO), key(TO), "1", String::new()), Err(ErrorCode::ContractPaused));
    assert_eq!(unpause(&mut base), Ok(()));
    assert_eq!(base, fresh());
}
