use rcc_core::auth::{Claims, TOKEN_EXPIRY};

#[test]
fn claims_name_the_executor_and_expire_far_ahead() {
    let claims = Claims::for_executor("E1").expect("the expiry fits a 64-bit word");
    assert_eq!(claims.sub, "E1");
    assert_eq!(claims.exp, 10_000_000_000);
    assert_eq!(TOKEN_EXPIRY, 10_000_000_000);
}

#[test]
fn claims_for_an_empty_identity_have_an_empty_subject() {
    let claims = Claims::for_executor("").expect("the expiry fits a 64-bit word");
    assert_eq!(claims.sub, "");
    assert_eq!(claims.exp as u64, TOKEN_EXPIRY);
}

#[test]
fn claims_are_there_exactly_where_the_expiry_fits() {
    assert_eq!(Claims::for_executor("E1").is_some(), usize::MAX as u64 >= TOKEN_EXPIRY);
}
