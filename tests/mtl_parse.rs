use graphics_fundamentals::mtl_parse::{parse_all_mtls, parse_mtl, MTLLoadError, MtlFault, ParsedMTL};

fn color(c: &Option<[graphics_fundamentals::decimal::Real; 3]>) -> Option<Vec<String>> {
    c.as_ref().map(|a| a.iter().map(|r| r.as_str().to_string()).collect())
}

fn strs(v: &[&str]) -> Option<Vec<String>> {
    Some(v.iter().map(|s| s.to_string()).collect())
}

fn one(text: &str, name: &str) -> ParsedMTL {
    match parse_mtl("lib.mtl", text, name) {
        Ok(p) => p,
        Err(e) => panic!("unexpected error: {:?}", e),
    }
}

const LIB: &str = "# materials\nnewmtl red\nKd 1.0 0.0 0.0\nKa 0.1 0.1 0.1\nNs 10\n\nnewmtl blue\nKd 0 0 1\nmap_Kd blue.png\nmap_Bump blue_n.png\nd 0.5\nNi 1.45\nillum 2\nKs 1 1 1\n";

#[test]
fn diffuse_color_of_named_material() {
    let p = one("newmtl red\nKd 1.0 0.0 0.0\n", "red");
    assert_eq!(p.name.as_deref(), Some("red"));
    assert_eq!(color(&p.kd), strs(&["1.0", "0.0", "0.0"]));
    assert!(p.map_kd.is_none());
    assert!(p.ka.is_none() && p.ks.is_none() && p.ns.is_none() && p.illum.is_none());
}

#[test]
fn named_material_stops_at_next_newmtl() {
    let p = one(LIB, "red");
    assert_eq!(color(&p.ka), strs(&["0.1", "0.1", "0.1"]));
    assert_eq!(p.ns.as_ref().map(|r| r.as_str()), Some("10"));
    assert!(p.ks.is_none() && p.map_kd.is_none() && p.d.is_none());
}

#[test]
fn all_properties_are_read() {
    let p = one(LIB, "blue");
    assert_eq!(color(&p.kd), strs(&["0", "0", "1"]));
    assert_eq!(color(&p.ks), strs(&["1", "1", "1"]));
    assert_eq!(p.map_kd.as_deref(), Some("blue.png"));
    assert_eq!(p.map_bump.as_deref(), Some("blue_n.png"));
    assert_eq!(p.d.as_ref().map(|r| r.as_str()), Some("0.5"));
    assert_eq!(p.ni.as_ref().map(|r| r.as_str()), Some("1.45"));
    assert_eq!(p.illum, Some(2));
}

#[test]
fn name_must_match_whole_token() {
    let p = one("newmtl redder\nKd 0 1 0\nnewmtl red\nKd 1 0 0\n", "red");
    assert_eq!(color(&p.kd), strs(&["1", "0", "0"]));
}

#[test]
fn missing_material_is_not_found() {
    match parse_mtl("lib.mtl", LIB, "green") {
        Err(MTLLoadError::MtlNotFound(msg)) => assert_eq!(msg, "green not found in lib.mtl"),
        other => panic!("expected not found, got {:?}", other.map(|p| p.name)),
    }
}

#[test]
fn bad_property_is_a_parse_error() {
    match parse_mtl("lib.mtl", "newmtl red\nKd 1 0\n", "red") {
        Err(MTLLoadError::Parse(path, line, msg)) => {
            assert_eq!(path, "lib.mtl");
            assert_eq!(line, 2);
            assert_eq!(msg, "could not parse Kd");
        }
        other => panic!("expected a parse error, got {:?}", other.map(|p| p.name)),
    }
}

#[test]
fn bad_lines_of_other_materials_are_not_read() {
    let p = one("newmtl other\nKd x y z\nnewmtl red\nNs 3\n", "red");
    assert_eq!(p.ns.as_ref().map(|r| r.as_str()), Some("3"));
}

#[test]
fn every_fault_has_its_message() {
    let cases = [
        ("Ka 1 2", "could not parse Ka", MtlFault::BadKa),
        ("Kd", "could not parse Kd", MtlFault::BadKd),
        ("Ks a b c", "could not parse Ks", MtlFault::BadKs),
        ("Ns", "could not parse Ns", MtlFault::BadNs),
        ("d 1 2", "could not parse d", MtlFault::BadD),
        ("Ni x", "could not parse Ni", MtlFault::BadNi),
        ("illum 1.5", "could not parse illum", MtlFault::BadIllum),
    ];
    for (line, want, fault) in cases {
        let text = format!("newmtl m\n{}\n", line);
        match parse_all_mtls("all.mtl", &text) {
            Err(MTLLoadError::Parse(_, n, msg)) => {
                assert_eq!(n, 2);
                assert_eq!(msg, want);
                assert_eq!(fault.message(), want);
            }
            _ => panic!("expected a parse error for {}", line),
        }
    }
}

#[test]
fn illum_must_fit() {
    match parse_all_mtls("all.mtl", "newmtl m\nillum 70000\n") {
        Err(MTLLoadError::Parse(_, 2, msg)) => assert_eq!(msg, "could not parse illum"),
        _ => panic!("expected a parse error"),
    }
    let all = parse_all_mtls("all.mtl", "newmtl m\nillum 65535\n").unwrap();
    assert_eq!(all[0].illum, Some(65535));
}

#[test]
fn all_materials_in_file_order() {
    let all = parse_all_mtls("all.mtl", LIB).unwrap();
    assert_eq!(all.len(), 2);
    assert_eq!(all[0].name.as_deref(), Some("red"));
    assert_eq!(all[1].name.as_deref(), Some("blue"));
    assert_eq!(color(&all[0].kd), strs(&["1.0", "0.0", "0.0"]));
    assert_eq!(all[1].illum, Some(2));
    assert!(all[0].map_kd.is_none());
}

#[test]
fn properties_before_first_material_belong_to_it() {
    let all = parse_all_mtls("all.mtl", "Kd 1 1 1\nnewmtl a\nNs 2\nnewmtl\nKd 0 0 0\n").unwrap();
    assert_eq!(all.len(), 2);
    assert_eq!(all[0].name.as_deref(), Some("a"));
    assert_eq!(color(&all[0].kd), strs(&["1", "1", "1"]));
    assert_eq!(all[0].ns.as_ref().map(|r| r.as_str()), Some("2"));
    assert_eq!(all[1].name, None);
    assert_eq!(color(&all[1].kd), strs(&["0", "0", "0"]));
}

#[test]
fn bad_property_before_first_material_is_an_error() {
    match parse_all_mtls("all.mtl", "Kd x\nnewmtl a\n") {
        Err(MTLLoadError::Parse(path, line, msg)) => {
            assert_eq!(path, "all.mtl");
            assert_eq!(line, 1);
            assert_eq!(msg, "could not parse Kd");
        }
        _ => panic!("expected a parse error"),
    }
}

#[test]
fn text_without_newmtl_gives_one_unnamed_record() {
    let all = parse_all_mtls("all.mtl", "").unwrap();
    assert_eq!(all.len(), 1);
    assert_eq!(all[0].name, None);
    assert!(all[0].kd.is_none());
    let all = parse_all_mtls("all.mtl", "# only\nd 0.25\n").unwrap();
    assert_eq!(all.len(), 1);
    assert_eq!(all[0].d.as_ref().map(|r| r.as_str()), Some("0.25"));
}

#[test]
fn later_property_overrides_earlier() {
    let p = one("newmtl m\nKd 1 1 1\nKd 0.5 0.5 0.5\n", "m");
    assert_eq!(color(&p.kd), strs(&["0.5", "0.5", "0.5"]));
}
