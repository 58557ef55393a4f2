use geotool::login::{
    auth_step, fresh_token, login_step, login_with_hash, password_hash_for, penalty,
    session_token, strike_count, AuthAction, AuthEvent, LoginAction, LoginEvent, MalformedHash,
    Penalty, STRIKE_LIMIT,
};

#[test]
fn missing_count_is_zero() {
    assert_eq!(strike_count(None), 0);
    assert_eq!(strike_count(Some(4)), 4);
}

#[test]
fn penalty_adds_a_strike_and_waits() {
    assert_eq!(penalty(0), Penalty { strikes: 1, wait_seconds: 3 });
    assert_eq!(penalty(10), Penalty { strikes: 11, wait_seconds: 33 });
}

#[test]
fn login_flow() {
    assert_eq!(login_step(0, LoginEvent::Arrived), LoginAction::LookUpHash);
    assert_eq!(login_step(9, LoginEvent::Arrived), LoginAction::LookUpHash);
    assert_eq!(login_step(STRIKE_LIMIT, LoginEvent::Arrived), LoginAction::Refuse(penalty(10)));
    assert_eq!(login_step(2, LoginEvent::UnknownUser), LoginAction::Refuse(Penalty { strikes: 3, wait_seconds: 9 }));
    assert_eq!(login_step(2, LoginEvent::PasswordChecked(true)), LoginAction::Accept);
    assert_eq!(login_step(2, LoginEvent::PasswordChecked(false)), LoginAction::Refuse(penalty(2)));
}

#[test]
fn blocked_address_stays_blocked() {
    let mut strikes = STRIKE_LIMIT;
    for _ in 0..5 {
        match login_step(strikes, LoginEvent::Arrived) {
            LoginAction::Refuse(p) => {
                assert_eq!(p.strikes, strikes + 1);
                strikes = p.strikes;
            }
            other => panic!("blocked address got {:?}", other),
        }
    }
    assert_eq!(auth_step(strikes, AuthEvent::Arrived), AuthAction::Refuse(penalty(strikes)));
}

#[test]
fn guard_flow() {
    assert_eq!(auth_step(0, AuthEvent::Arrived), AuthAction::FetchToken);
    assert_eq!(auth_step(3, AuthEvent::TokenMissing), AuthAction::Refuse(penalty(3)));
    assert_eq!(auth_step(3, AuthEvent::TokenCompared(true)), AuthAction::Admit { clear_strikes: true });
    assert_eq!(auth_step(0, AuthEvent::TokenCompared(true)), AuthAction::Admit { clear_strikes: false });
    assert_eq!(auth_step(0, AuthEvent::TokenCompared(false)), AuthAction::Refuse(penalty(0)));
}

#[test]
fn tokens_are_64_alphanumerics() {
    let t = fresh_token();
    assert_eq!(t.len(), 64);
    assert!(t.chars().all(|c| c.is_ascii_alphanumeric()));
    let u = fresh_token();
    assert_ne!(t, u);
    assert_eq!(session_token(Some("kept".to_string())), "kept");
    assert_eq!(session_token(None).len(), 64);
}

#[test]
fn passwords_are_checked_with_argon2() {
    let h = password_hash_for("correct horse battery staple").unwrap();
    assert!(h.starts_with("$argon2id$v=19$"));
    assert_eq!(login_with_hash(0, "correct horse battery staple", &h), Ok(LoginAction::Accept));
    assert_eq!(
        login_with_hash(4, "wrong horse battery staple", &h),
        Ok(LoginAction::Refuse(Penalty { strikes: 5, wait_seconds: 15 }))
    );
    assert_eq!(login_with_hash(0, "whatever", "not a hash"), Err(MalformedHash));
    // two hashes of one password differ by their salt
    let h2 = password_hash_for("correct horse battery staple").unwrap();
    assert_ne!(h, h2);
}
