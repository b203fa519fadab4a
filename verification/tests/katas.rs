use async_demos::katas::{
    choose_nonempty, completed_task_id, describe, parse_optional_limit, positive_limit,
    render_dynamic, render_static, session_label, Decode, LimitError, Named, Render, SessionId, TokenCount,
    TurnEvent,
};

#[test]
fn kata_01_owned_and_borrowed_strings() {
    let id = SessionId::new("session-7");
    let shared_view = id.as_str();

    assert_eq!(shared_view, "session-7");
    assert_eq!(id.as_str(), "session-7");

    let copied = id.clone();
    assert_eq!(copied, id);
}

#[test]
fn kata_02_match_a_borrow_without_moving_fields() {
    let event = TurnEvent::Finished {
        prompt_id: "p1".to_owned(),
        tokens: 42,
    };

    assert_eq!(describe(&event), "finish:p1:42");
    assert!(matches!(event, TurnEvent::Finished { tokens: 42, .. }));
}

#[test]
fn kata_03_let_else_narrows_one_shape() {
    let running = TurnEvent::Started {
        prompt_id: "p2".to_owned(),
    };
    let done = TurnEvent::Finished {
        prompt_id: "p3".to_owned(),
        tokens: 8,
    };

    assert_eq!(completed_task_id(&running), None);
    assert_eq!(completed_task_id(&done), Some("p3"));
}

#[test]
fn kata_04_option_result_transpose() {
    assert_eq!(parse_optional_limit(None).unwrap(), None);
    assert_eq!(parse_optional_limit(Some("12")).unwrap(), Some(12));
    assert!(parse_optional_limit(Some("many")).is_err());
}

#[test]
fn kata_05_iter_iter_mut_and_into_iter() {
    let mut names = vec!["read".to_owned(), "write".to_owned()];

    let lengths: Vec<usize> = names.iter().map(String::len).collect();
    assert_eq!(lengths, vec![4, 5]);
    assert_eq!(names.len(), 2);

    for name in names.iter_mut() {
        name.make_ascii_uppercase();
    }
    assert_eq!(names, vec!["READ", "WRITE"]);

    let owned: Vec<String> = names.into_iter().collect();
    assert_eq!(owned, vec!["READ", "WRITE"]);
}

#[test]
fn kata_07_static_and_dynamic_dispatch() {
    let id = SessionId::new("abc");
    assert_eq!(render_static(&id), "session:abc");
    assert_eq!(render_dynamic(&id), "session:abc");
    assert!(!id.is_empty());
}

#[test]
fn kata_08_associated_types_belong_to_the_impl() {
    let encoded = TokenCount("128");
    let decoded: u64 = encoded.decode().unwrap();
    assert_eq!(decoded, 128);
}

#[test]
fn kata_09_question_mark_uses_from() {
    assert_eq!(positive_limit("5").unwrap(), 5);
    assert!(matches!(positive_limit("0"), Err(LimitError::Zero)));
    assert!(matches!(
        positive_limit("none"),
        Err(LimitError::InvalidNumber(_))
    ));
}

#[test]
fn kata_10_blanket_impl_and_unsized_trait_object() {
    let value: Box<dyn Named> = Box::new(SessionId::new("boxed"));
    assert_eq!(value.name(), "boxed");
}

#[test]
fn kata_11_lifetime_connects_inputs_to_output() {
    let primary = String::new();
    let fallback = String::from("default");
    let selected = choose_nonempty(&primary, &fallback);
    assert_eq!(selected, "default");
}

#[test]
fn describe_renders_every_shape() {
    let started = TurnEvent::Started {
        prompt_id: "p9".to_owned(),
    };
    assert_eq!(describe(&started), "start:p9");
    assert_eq!(describe(&TurnEvent::Cancelled), "cancelled");
    let zero = TurnEvent::Finished {
        prompt_id: "p0".to_owned(),
        tokens: 0,
    };
    assert_eq!(describe(&zero), "finish:p0:0");
    let big = TurnEvent::Finished {
        prompt_id: "x".to_owned(),
        tokens: u64::MAX,
    };
    assert_eq!(describe(&big), "finish:x:18446744073709551615");
}

#[test]
fn limits_follow_std_numeral_rules() {
    assert_eq!(parse_optional_limit(Some("+7")).unwrap(), Some(7));
    assert!(parse_optional_limit(Some("")).is_err());
    assert!(parse_optional_limit(Some("-1")).is_err());
    assert!(parse_optional_limit(Some("4294967296")).is_err());
    assert_eq!(parse_optional_limit(Some("4294967295")).unwrap(), Some(u32::MAX));
    assert!(matches!(positive_limit(" 5"), Err(LimitError::InvalidNumber(_))));
}

#[test]
fn choose_nonempty_prefers_primary() {
    assert_eq!(choose_nonempty("main", "default"), "main");
}

#[test]
fn owned_label_outlives_its_function() {
    let label = session_label();
    assert_eq!(label, "session-1");
}
