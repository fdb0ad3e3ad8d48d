use imgcache::{
    get_cache_dir,
    accept_response, cache_key, check_response, derive_key, get_image_cache_path, get_tempfile_path,
    is_image_cache_hit, is_image_type, join_path, next_stage, parent_dir, parse_url_parts, publish_action,
    publish_plan, publish_plan_at, push_decimal, staging_path, staging_payload, tempfile_path_at, CacheError,
    InFlight, PicQuery, PrepareJson, PublishAction, PublishStage, Role, UrlParts, STATUS_OK,
};

#[test]
fn test_get_image_cache_path() {
    let want = String::from("/cache/www.baidu.com/img/bd_logo1.png");
    let input = "https://www.baidu.com/img/bd_logo1.png";

    let got = get_image_cache_path("/cache", input).unwrap();
    assert_eq!(got, want);
}

#[test]
fn cache_path_with_trailing_slash_root() {
    let got = get_image_cache_path("/cache/", "https://www.baidu.com/img/bd_logo1.png").unwrap();
    assert_eq!(got, "/cache/www.baidu.com/img/bd_logo1.png");
}

#[test]
fn key_ignores_query_and_fragment() {
    let a = derive_key("https://example.com/a/b.png").unwrap();
    let b = derive_key("https://example.com/a/b.png?size=2#top").unwrap();
    let c = derive_key("https://example.com/a/b.png#x").unwrap();
    assert_eq!(a, "example.com/a/b.png");
    assert_eq!(a, b);
    assert_eq!(a, c);
}

#[test]
fn key_differs_by_host_and_path() {
    let a = derive_key("https://example.com/a.png").unwrap();
    let b = derive_key("https://example.org/a.png").unwrap();
    let c = derive_key("https://example.com/b.png").unwrap();
    assert_ne!(a, b);
    assert_ne!(a, c);
}

#[test]
fn key_of_bare_host_is_host_and_root() {
    assert_eq!(derive_key("https://example.com").unwrap(), "example.com/");
}

#[test]
fn invalid_url_is_rejected() {
    assert_eq!(derive_key("not a url"), Err(CacheError::InvalidUrl));
    assert_eq!(get_image_cache_path("/cache", ""), Err(CacheError::InvalidUrl));
}

#[test]
fn url_without_host_is_rejected() {
    let parts = parse_url_parts("data:text/plain,Stuff").unwrap();
    assert!(parts.host.is_none());
    assert_eq!(derive_key("data:text/plain,Stuff"), Err(CacheError::InvalidUrl));
    assert_eq!(cache_key(&parts), Err(CacheError::InvalidUrl));
}

#[test]
fn parsed_parts_keep_host_and_path() {
    let parts = parse_url_parts("https://www.baidu.com/img/bd_logo1.png?x=1").unwrap();
    assert_eq!(parts.host.as_deref(), Some("www.baidu.com"));
    assert_eq!(parts.path, "/img/bd_logo1.png");
}

#[test]
fn cache_key_of_parts() {
    let parts = UrlParts { host: Some(String::from("h.io")), path: String::from("/p/q.jpg") };
    assert_eq!(cache_key(&parts).unwrap(), "h.io/p/q.jpg");
}

#[test]
fn join_adds_one_separator() {
    assert_eq!(join_path("/cache", "a/b"), "/cache/a/b");
    assert_eq!(join_path("/cache/", "a/b"), "/cache/a/b");
    assert_eq!(join_path("", "a"), "a");
    assert_eq!(get_image_cache_path("", "http://h/x.png").unwrap(), "h/x.png");
}

#[test]
fn decimal_forms() {
    let cases: Vec<(i64, &str)> = vec![(0, "0"), (7, "7"), (1234567, "1234567"), (-45, "-45"), (i64::MIN, "-9223372036854775808"), (i64::MAX, "9223372036854775807")];
    for (n, want) in cases {
        let mut out: Vec<u8> = vec![b'x'];
        push_decimal(&mut out, n);
        let mut expected = vec![b'x'];
        expected.extend_from_slice(want.as_bytes());
        assert_eq!(out, expected);
    }
}

#[test]
fn staging_payload_form() {
    assert_eq!(staging_payload("a.com/x", 12), b"a.com/x_12".to_vec());
    assert_eq!(staging_payload("a.com/x", -3), b"a.com/x_-3".to_vec());
}

#[test]
fn staging_path_form() {
    assert_eq!(staging_path("/cache", "NAME"), "/cache/tmp/NAME");
}

#[test]
fn tempfile_path_is_base32_of_payload() {
    let p = tempfile_path_at("/cache", "https://www.baidu.com/img/bd_logo1.png", 1).unwrap();
    assert_eq!(p, "/cache/tmp/O53XOLTCMFUWI5JOMNXW2L3JNVTS6YTEL5WG6Z3PGEXHA3THL4YQ");
    let q = tempfile_path_at("/cache", "http://a.com/x?y", 12).unwrap();
    assert_eq!(q, "/cache/tmp/MEXGG33NF54F6MJS");
}

#[test]
fn tempfile_names_differ_by_time() {
    let a = tempfile_path_at("/cache", "http://a.com/x", 1).unwrap();
    let b = tempfile_path_at("/cache", "http://a.com/x", 2).unwrap();
    assert_ne!(a, b);
}

#[test]
fn fresh_tempfile_path_is_under_tmp() {
    let p = get_tempfile_path("/cache", "https://www.baidu.com/img/bd_logo1.png").unwrap();
    assert!(p.starts_with("/cache/tmp/"));
    assert!(!p["/cache/tmp/".len()..].contains('/'));
    assert!(!p.contains('='));
    assert_eq!(get_tempfile_path("/cache", "nope"), Err(CacheError::InvalidUrl));
}

#[test]
fn response_checks() {
    assert_eq!(STATUS_OK, 200);
    assert_eq!(check_response(200, Some("image/png")), Ok(()));
    assert_eq!(check_response(200, Some("image/")), Ok(()));
    assert_eq!(check_response(404, Some("image/png")), Err(CacheError::BadStatus));
    assert_eq!(check_response(301, Some("image/png")), Err(CacheError::BadStatus));
    assert_eq!(check_response(204, Some("image/png")), Err(CacheError::BadStatus));
    assert_eq!(check_response(200, None), Err(CacheError::MissingContentType));
    assert_eq!(check_response(200, Some("text/plain")), Err(CacheError::NotAnImage));
    assert_eq!(check_response(200, Some("image")), Err(CacheError::NotAnImage));
    assert_eq!(check_response(200, Some("Image/png")), Err(CacheError::NotAnImage));
    assert!(is_image_type("image/webp"));
    assert!(!is_image_type(""));
}

#[test]
fn not_found_origin_is_a_fetch_error() {
    let r = accept_response(404, Some("image/png"), vec![1, 2, 3]);
    assert_eq!(r, Err(CacheError::BadStatus));
}

#[test]
fn text_origin_is_not_an_image() {
    let r = accept_response(200, Some("text/plain"), b"oops".to_vec());
    assert_eq!(r, Err(CacheError::NotAnImage));
}

#[test]
fn image_origin_body_is_kept() {
    let r = accept_response(200, Some("image/avif"), vec![9, 8, 7]);
    assert_eq!(r, Ok(vec![9, 8, 7]));
}

#[test]
fn parent_directories() {
    assert_eq!(parent_dir("/cache/www.baidu.com/img/bd_logo1.png"), "/cache/www.baidu.com/img");
    assert_eq!(parent_dir("/x"), "/");
    assert_eq!(parent_dir("x"), "");
    assert_eq!(parent_dir("a/b/"), "a/b");
}

#[test]
fn publish_plan_paths() {
    let p = publish_plan_at("/cache", "https://www.baidu.com/img/bd_logo1.png", 1).unwrap();
    assert_eq!(p.staging_dir, "/cache/tmp");
    assert_eq!(p.staging_file, "/cache/tmp/O53XOLTCMFUWI5JOMNXW2L3JNVTS6YTEL5WG6Z3PGEXHA3THL4YQ");
    assert_eq!(p.final_dir, "/cache/www.baidu.com/img");
    assert_eq!(p.final_file, "/cache/www.baidu.com/img/bd_logo1.png");
    let q = publish_plan("/cache", "https://www.baidu.com/img/bd_logo1.png").unwrap();
    assert_eq!(q.final_file, p.final_file);
    assert!(q.staging_file.starts_with("/cache/tmp/"));
    assert!(publish_plan("/cache", "::").is_err());
}

fn describe(a: &PublishAction) -> String {
    match a {
        PublishAction::CreateDir(d) => format!("mkdir {}", d),
        PublishAction::WriteFile(f) => format!("write {}", f),
        PublishAction::Rename(x, y) => format!("mv {} {}", x, y),
        PublishAction::RemoveFile(f) => format!("rm {}", f),
        PublishAction::Finish(r) => format!("done {:?}", r),
    }
}

#[test]
fn publish_happy_path_moves_last() {
    let p = publish_plan_at("/c", "http://h/a/b.png", 5).unwrap();
    let mut s = PublishStage::Start;
    let mut log = Vec::new();
    loop {
        let a = publish_action(&p, s);
        log.push(describe(&a));
        if let PublishAction::Finish(_) = a {
            break;
        }
        s = next_stage(s, true);
    }
    assert_eq!(log.len(), 5);
    assert_eq!(log[0], "mkdir /c/tmp");
    assert_eq!(log[1], format!("write {}", p.staging_file));
    assert_eq!(log[2], "mkdir /c/h/a");
    assert_eq!(log[3], format!("mv {} /c/h/a/b.png", p.staging_file));
    assert_eq!(log[4], "done Ok(())");
}

#[test]
fn publish_failure_removes_staging() {
    let p = publish_plan_at("/c", "http://h/a/b.png", 5).unwrap();
    let s = next_stage(next_stage(next_stage(PublishStage::Start, true), true), true);
    assert_eq!(s, PublishStage::FinalDirMade);
    let s = next_stage(s, false);
    assert_eq!(s, PublishStage::Cleanup);
    assert_eq!(describe(&publish_action(&p, s)), format!("rm {}", p.staging_file));
    let s = next_stage(s, true);
    assert_eq!(s, PublishStage::Failed);
    assert_eq!(describe(&publish_action(&p, s)), "done Err(Io)");
    assert_eq!(next_stage(PublishStage::Start, false), PublishStage::Failed);
    assert_eq!(next_stage(PublishStage::StagingDirMade, false), PublishStage::Cleanup);
}

#[test]
fn one_owner_per_key_burst() {
    let mut f = InFlight::new();
    let k = String::from("example.com/a.png");
    let roles: Vec<Role> = (0..5).map(|_| f.begin(&k, false)).collect();
    assert_eq!(roles[0], Role::Owner);
    assert!(roles[1..].iter().all(|r| *r == Role::Waiter));
    assert_eq!(roles.iter().filter(|r| **r == Role::Owner).count(), 1);
    assert!(f.contains(&k));
}

#[test]
fn one_owner_per_distinct_key() {
    let mut f = InFlight::new();
    let keys: Vec<String> = (0..4).map(|i| format!("h/{}.png", i)).collect();
    for k in &keys {
        assert_eq!(f.begin(k, false), Role::Owner);
    }
    for k in &keys {
        assert_eq!(f.begin(k, false), Role::Waiter);
    }
}

#[test]
fn hit_bypasses_coordination() {
    let mut f = InFlight::new();
    let k = String::from("h/x");
    assert_eq!(f.begin(&k, true), Role::Hit);
    assert!(!f.contains(&k));
}

#[test]
fn failed_fetch_is_retried() {
    let mut f = InFlight::new();
    let k = String::from("h/x");
    let other = String::from("h/y");
    assert_eq!(f.begin(&k, false), Role::Owner);
    assert_eq!(f.begin(&other, false), Role::Owner);
    assert_eq!(f.begin(&k, false), Role::Waiter);
    f.resolve(&k);
    assert!(!f.contains(&k));
    assert!(f.contains(&other));
    assert_eq!(f.begin(&k, false), Role::Owner);
}

#[test]
fn empty_or_missing_path_is_no_hit() {
    assert!(!is_image_cache_hit(""));
    assert!(!is_image_cache_hit("/no/such/dir/for/this/cache/x.png"));
}

#[test]
fn prepare_request_target() {
    let token = String::from("SECRET-REDACTED");
    let ok = PrepareJson::new(String::from("https://www.baidu.com/img/bd_logo1.png"), token.clone());
    assert!(ok.token_matches(&token));
    assert_eq!(ok.target(&token, "/cache"), Ok(Some(String::from("/cache/www.baidu.com/img/bd_logo1.png"))));
    let bad = PrepareJson::new(String::from("https://www.baidu.com/img/bd_logo1.png"), String::from("nope"));
    assert!(!bad.token_matches(&token));
    assert_eq!(bad.target(&token, "/cache"), Ok(None));
    let junk = PrepareJson::new(String::from("junk"), token.clone());
    assert_eq!(junk.target(&token, "/cache"), Err(CacheError::InvalidUrl));
}

#[test]
fn pic_query_target() {
    let q = PicQuery::new(String::from("https://www.baidu.com/img/bd_logo1.png?w=10"));
    assert_eq!(q.target("/cache"), Ok(String::from("/cache/www.baidu.com/img/bd_logo1.png")));
    assert_eq!(PicQuery::new(String::from("")).target("/cache"), Err(CacheError::InvalidUrl));
}

#[test]
fn cache_dir_default_and_configured() {
    assert_eq!(get_cache_dir(None), "/cache");
    assert_eq!(get_cache_dir(Some(String::from("/var/img"))), "/var/img");
}

#[test]
fn staging_name_is_one_base32_component() {
    let p = tempfile_path_at("/cache", "https://www.baidu.com/img/bd_logo1.png?q=1", -7).unwrap();
    let name = p.strip_prefix("/cache/tmp/").unwrap();
    assert!(!name.is_empty());
    assert!(name.chars().all(|c| c.is_ascii_uppercase() || ('2'..='7').contains(&c)));
    assert_eq!(name.len(), (8 * "www.baidu.com/img/bd_logo1.png_-7".len() + 4) / 5);
}

#[test]
fn staging_file_differs_from_final_file_under_tmp_host() {
    let p = publish_plan_at("/cache", "http://a.com/x", 12).unwrap();
    let name = p.staging_file.strip_prefix("/cache/tmp/").unwrap().to_string();
    let tricky = format!("http://tmp/{}", name);
    let q = publish_plan_at("/cache", &tricky, 12).unwrap();
    assert_eq!(q.final_file, p.staging_file);
    assert_ne!(q.staging_file, q.final_file);
    assert_ne!(p.staging_file, p.final_file);
}
