use arma_bench::archive::{
    build_archive, compare_bootstrap, descriptor, execute_bootstrap, item_file_name, new_job_id,
    push_decimal, push_joined_ids, utf8_bytes,
};
use arma_bench::{CompareRequest, Request};

fn find(hay: &[u8], needle: &[u8]) -> bool {
    hay.windows(needle.len()).any(|w| w == needle)
}

#[test]
fn decimal_text() {
    for (n, t) in [(0u16, "0"), (7, "7"), (10, "10"), (305, "305"), (65535, "65535")] {
        let mut s = String::from("x");
        push_decimal(&mut s, n);
        assert_eq!(s, format!("x{t}"));
    }
}

#[test]
fn joined_id_list() {
    let mut s = String::new();
    push_joined_ids(&mut s, &[0, 12, 3]);
    assert_eq!(s, "0\", \"12\", \"3");
    let mut e = String::new();
    push_joined_ids(&mut e, &[]);
    assert_eq!(e, "");
}

#[test]
fn item_names() {
    let src = CompareRequest { id: 12, sqfc: false, content: vec![] };
    let bin = CompareRequest { id: 3, sqfc: true, content: vec![] };
    assert_eq!(item_file_name(&src), "12.sqf");
    assert_eq!(item_file_name(&bin), "3.sqfc");
}

#[test]
fn bootstraps_name_the_job() {
    let e = execute_bootstrap("abc");
    assert!(e.contains(r#""tab" callExtension ["timeout", ["abc", 30]];"#));
    assert!(e.contains(r#""tab" callExtension ["execute", ["abc", _out, _ret]];"#));
    assert!(e.contains(r#""tab" callExtension ["die", []];"#));
    assert!(e.contains(r#"compile preprocessFileLineNumbers "\tab\bench.sqf";"#));
    let c = compare_bootstrap("xyz", &[0, 1]);
    assert!(c.contains(r#"["timeout", ["xyz", 120]]"#));
    assert!(c.contains(r#"} forEach ["0", "1"];"#));
    assert!(c.contains(r#""tab" callExtension ["compare", ["xyz", _out]];"#));
    assert!(descriptor().contains(r#"file = "\tab\bootstrap.sqf";"#));
}

#[test]
fn job_ids_are_fresh_uuids() {
    let a = new_job_id();
    let b = new_job_id();
    assert_eq!(a.len(), 36);
    assert_ne!(a, b);
    for (i, c) in a.chars().enumerate() {
        if [8, 13, 18, 23].contains(&i) {
            assert_eq!(c, '-');
        } else {
            assert!(c.is_ascii_hexdigit() && !c.is_ascii_uppercase());
        }
    }
    assert_eq!(a.chars().nth(14), Some('4'));
}

#[test]
fn utf8_of_text() {
    assert_eq!(utf8_bytes("aé"), vec![0x61, 0xc3, 0xa9]);
}

#[test]
fn execute_archive_holds_its_files() {
    let bytes = build_archive(&Request::Execute("1 + 2".to_string()), "job-1").expect("archive");
    assert!(find(&bytes, b"prefix\0tab\0"));
    assert!(find(&bytes, b"config.cpp\0"));
    assert!(find(&bytes, b"bootstrap.sqf\0"));
    assert!(find(&bytes, b"bench.sqf\0"));
    assert!(find(&bytes, b"1 + 2"));
    assert!(find(&bytes, b"[\"job-1\", 30]"));
    let again = build_archive(&Request::Execute("1 + 2".to_string()), "job-1").expect("archive");
    assert_eq!(bytes, again);
}

#[test]
fn compare_archive_holds_each_item() {
    let req = Request::Compare(vec![
        CompareRequest { id: 0, sqfc: false, content: b"private _a = 1; private _b = 2; _a + _b".to_vec() },
        CompareRequest { id: 1, sqfc: true, content: vec![1, 2, 3, 4] },
    ]);
    let bytes = build_archive(&req, "job-2").expect("archive");
    assert!(find(&bytes, b"0.sqf\0"));
    assert!(find(&bytes, b"1.sqfc\0"));
    assert!(find(&bytes, b"private _a = 1; private _b = 2; _a + _b"));
    assert!(find(&bytes, b"forEach [\"0\", \"1\"]"));
    assert!(!find(&bytes, b"bench.sqf"));
}

#[test]
fn empty_compare_still_builds() {
    let bytes = build_archive(&Request::Compare(vec![]), "job-3").expect("archive");
    assert!(find(&bytes, b"forEach [\"\"]"));
}
