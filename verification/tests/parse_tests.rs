use kenshi::args::{
    adjust_concurrency, expand_wordlist, pick_user_agent, print_state_of, script_path_of,
    select_scan_mode, split_proxy_auth, user_agent_count,
};
use kenshi::data_type::ScanMode;
use kenshi::params_parse::{
    filter_params, match_params, opt_int_parm, opt_int_some_parm, opt_int_split,
    opt_usize_split, opt_vec_split,
};

#[test]
fn test_validate_args_success() {}

#[test]
fn numeric_flags_fall_back_to_defaults() {
    assert_eq!(opt_int_parm(&Some(String::from("25")), 7), 25);
    assert_eq!(opt_int_parm(&Some(String::from("x")), 7), 7);
    assert_eq!(opt_int_parm(&None, 7), 7);
    assert_eq!(opt_int_some_parm(&Some(String::from("42"))), Some(42));
    assert_eq!(opt_int_some_parm(&Some(String::from(""))), None);
    assert_eq!(opt_int_some_parm(&None), None);
}

#[test]
fn code_lists_split_on_commas() {
    let set = opt_usize_split(&Some(String::from("1,2,junk,2")), "").unwrap();
    assert_eq!(set.len(), 2);
    assert!(set.contains(&1));
    assert!(set.contains(&2));

    assert!(opt_usize_split(&None, "").is_none());
    let defaults = opt_usize_split(&None, "5,6").unwrap();
    assert!(defaults.contains(&5));
    assert!(defaults.contains(&6));
    assert_eq!(defaults.len(), 2);
}

#[test]
fn status_code_defaults_always_include_200_and_403() {
    let given = opt_int_split(&Some(String::from("404")), "500").unwrap();
    assert_eq!(given.len(), 1);
    assert!(given.contains(&404));

    let defaulted = opt_int_split(&None, "500,301").unwrap();
    assert!(defaulted.contains(&500));
    assert!(defaulted.contains(&301));
    assert!(defaulted.contains(&200));
    assert!(defaulted.contains(&403));
    assert_eq!(defaulted.len(), 4);

    // A value beyond u16 range is skipped.
    let overflow = opt_int_split(&Some(String::from("65536,80")), "").unwrap();
    assert_eq!(overflow.len(), 1);
    assert!(overflow.contains(&80));
}

#[test]
fn size_lists_are_trimmed() {
    let list = opt_vec_split(&Some(String::from(" <100, >1000 ,10-50,1234"))).unwrap();
    assert_eq!(list, vec!["<100", ">1000", "10-50", "1234"]);
    assert!(opt_vec_split(&None).is_none());
}

#[test]
fn filter_params_builds_only_when_asked() {
    let none = filter_params(&None, &None, &None, &None, false).unwrap();
    assert!(none.is_none());

    let built = filter_params(
        &None,
        &Some(String::from("404,500")),
        &Some(String::from("3")),
        &Some(String::from("10-50")),
        true,
    )
    .unwrap()
    .unwrap();
    assert!(built.regex.is_none());
    let codes = built.status_code.unwrap();
    assert!(codes.contains(&404) && codes.contains(&500));
    let lines = built.line_num.unwrap();
    assert!(lines.contains(&3));
    assert_eq!(built.resp_size.unwrap(), vec!["10-50"]);
    assert!(!built.and_and_and);

    let bad = filter_params(&Some(String::from("(")), &None, &None, &None, false);
    assert!(bad.is_err());
}

#[test]
fn match_params_always_has_a_status_set() {
    let m = match_params(&None, &None, &None, &None, false, "200,301,403,401,500")
        .unwrap()
        .unwrap();
    let codes = m.status_code.unwrap();
    for c in [200u16, 301, 403, 401, 500] {
        assert!(codes.contains(&c));
    }
    assert_eq!(codes.len(), 5);
    assert!(m.and_and_and);

    let explicit = match_params(
        &None,
        &Some(String::from("204")),
        &Some(String::from("321")),
        &Some(String::from("9")),
        true,
        "200,301,403,401,500",
    )
    .unwrap()
    .unwrap();
    let codes = explicit.status_code.unwrap();
    assert!(codes.contains(&204));
    assert_eq!(codes.len(), 1);
    assert_eq!(explicit.resp_size, Some(321));
    assert_eq!(explicit.line_num, Some(9));
    assert!(!explicit.and_and_and);

    let bad = match_params(
        &Some(String::from("[")),
        &None,
        &None,
        &None,
        false,
        "200,301,403,401,500",
    );
    assert!(bad.is_err());
}

#[test]
fn proxy_auth_splits_at_the_first_colon() {
    assert_eq!(
        split_proxy_auth("user:pass"),
        Ok((String::from("user"), String::from("pass")))
    );
    assert_eq!(
        split_proxy_auth("user:pa:ss"),
        Ok((String::from("user"), String::from("pa:ss")))
    );
    assert_eq!(
        split_proxy_auth("nopass"),
        Err(String::from("Failed to format proxy authentication information"))
    );
}

#[test]
fn extension_expansion_touches_only_marked_lines() {
    let wordlist = vec![
        String::from("index.%EXT%"),
        String::from("static"),
    ];
    let exts = vec![String::from("php"), String::from("bak")];
    let out = expand_wordlist(&wordlist, &exts);
    assert_eq!(out, vec!["index.php", "index.bak", "static"]);
}

#[test]
fn concurrency_never_exceeds_the_wordlist() {
    assert_eq!(adjust_concurrency(500, 10), 5);
    assert_eq!(adjust_concurrency(500, 1), 1);
    assert_eq!(adjust_concurrency(500, 0), 1);
    assert_eq!(adjust_concurrency(3, 10), 3);
}

#[test]
fn scan_mode_selection_and_names() {
    assert_eq!(select_scan_mode(false, false), ScanMode::Debug);
    assert_eq!(select_scan_mode(true, false), ScanMode::Stats);
    assert_eq!(select_scan_mode(true, true), ScanMode::Silent);
    assert_eq!(ScanMode::Debug.to_string(), "debug");
    assert_eq!(ScanMode::Stats.to_string(), "detail");
    assert_eq!(ScanMode::Silent.to_string(), "silent");
    assert!(print_state_of(&ScanMode::Debug));
    assert!(print_state_of(&ScanMode::Stats));
    assert!(!print_state_of(&ScanMode::Silent));
}

#[test]
fn user_agents_and_script_paths() {
    assert_eq!(user_agent_count(), 4);
    let ua = pick_user_agent(2);
    assert!(ua.contains("Android 10"));
    assert_eq!(script_path_of("meta"), "script/meta.kse");
}
