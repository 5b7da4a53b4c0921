use typebang::font::{
    choose_face, family_candidates_for, font_faces_listing, font_families_listing, get_families,
    get_font_faces, generic_family_candidates, is_target_family, FaceChoice, FaceRecord,
    FamilyChoice, Filter, Source,
};

fn face(ps: &str, families: &[&str]) -> FaceRecord {
    FaceRecord {
        post_script_name: ps.to_string(),
        families: families.iter().map(|s| s.to_string()).collect(),
    }
}

fn names(v: &[FamilyChoice]) -> Vec<String> {
    v.iter()
        .map(|f| match f {
            FamilyChoice::SansSerif => "<sans-serif>".to_string(),
            FamilyChoice::Serif => "<serif>".to_string(),
            FamilyChoice::Monospace => "<monospace>".to_string(),
            FamilyChoice::Name(n) => n.clone(),
        })
        .collect()
}

#[test]
fn source_and_filter_descriptions() {
    assert_eq!(Source::System.describe(), "System font");
    assert_eq!(Source::File("/x/y.ttf".to_string()).describe(), "/x/y.ttf");
    let named = Filter { source: Source::System, name: Some("Arial".to_string()) };
    assert_eq!(named.describe(), "Arial of System font");
    let any = Filter { source: Source::File("a/b.otf".to_string()), name: None };
    assert_eq!(any.describe(), "Any font of a/b.otf");
}

#[test]
fn families_are_sorted_and_unique() {
    let faces = vec![
        face("B-Regular", &["Beta", "Alpha"]),
        face("A-Bold", &["Alpha"]),
        face("Z", &["Zeta", "Beta"]),
    ];
    assert_eq!(get_families(&faces), vec!["Alpha", "Beta", "Zeta"]);
}

#[test]
fn families_sort_by_code_point() {
    let faces = vec![face("x", &["ébène", "abc", "Abc", "ab", "Z"])];
    let expected: Vec<String> = {
        let set: std::collections::BTreeSet<&str> =
            ["ébène", "abc", "Abc", "ab", "Z"].into_iter().collect();
        set.into_iter().map(|s| s.to_string()).collect()
    };
    assert_eq!(get_families(&faces), expected);
    assert_eq!(get_families(&faces), vec!["Abc", "Z", "ab", "abc", "ébène"]);
}

#[test]
fn families_of_empty_database() {
    assert!(get_families(&Vec::new()).is_empty());
}

#[test]
fn faces_filtered_by_family() {
    let faces = vec![
        face("DejaVuSans", &["DejaVu Sans"]),
        face("DejaVuSans-Bold", &["DejaVu Sans", "DejaVu Sans Bold"]),
        face("NotoSerif", &["Noto Serif"]),
    ];
    let filter = Filter { source: Source::System, name: Some("DejaVu Sans".to_string()) };
    assert_eq!(get_font_faces(&filter, &faces), vec!["DejaVuSans", "DejaVuSans-Bold"]);
    let all = Filter { source: Source::System, name: None };
    assert_eq!(get_font_faces(&all, &faces), vec!["DejaVuSans", "DejaVuSans-Bold", "NotoSerif"]);
    assert!(is_target_family(&None, &faces[2]));
    assert!(!is_target_family(&Some("Noto".to_string()), &faces[2]));
}

#[test]
fn face_chosen_by_post_script_name() {
    let faces = vec![face("A", &["Fam"]), face("B", &["Fam"]), face("B", &["Other"])];
    assert!(matches!(choose_face(&Some("B".to_string()), &faces), FaceChoice::Face(1)));
    assert!(matches!(choose_face(&None, &faces), FaceChoice::Face(0)));
    assert!(matches!(choose_face(&None, &Vec::new()), FaceChoice::NoFaces));
}

#[test]
fn unknown_name_becomes_family_query() {
    let faces = vec![face("A", &["Fam"])];
    match choose_face(&Some("MONOSPACE".to_string()), &faces) {
        FaceChoice::Query(q) => assert_eq!(
            names(&q),
            vec![
                "<monospace>",
                "Noto Sans Mono",
                "DejaVu Sans Mono",
                "Consolas",
                "Courier New",
                "Lucida Console"
            ]
        ),
        _ => panic!("expected a query"),
    }
    match choose_face(&Some("Fira Code".to_string()), &faces) {
        FaceChoice::Query(q) => assert_eq!(names(&q), vec!["Fira Code"]),
        _ => panic!("expected a query"),
    }
}

#[test]
fn generic_families_match_in_any_case() {
    assert_eq!(
        names(&generic_family_candidates("Sans-Serif")),
        vec!["<sans-serif>", "Noto Sans", "DejaVu Sans", "Arial", "Segoe UI"]
    );
    assert_eq!(
        names(&generic_family_candidates("SERIF")),
        vec!["<serif>", "Noto Serif", "DejaVu Serif", "Times New Roman"]
    );
    assert_eq!(names(&family_candidates_for("serif", "Serif")).len(), 4);
    assert_eq!(names(&family_candidates_for("arial", "Arial")), vec!["Arial"]);
}

#[test]
fn families_listing_text() {
    let text = font_families_listing(&vec!["Alpha".to_string(), "Beta".to_string()]);
    assert_eq!(
        text,
        "Generic families:\n  sans-serif\n  serif\n  monospace\n\nInstalled font families:\n  Alpha\n  Beta\n"
    );
    let none = font_families_listing(&Vec::new());
    assert!(none.ends_with("Installed font families:\n  No fonts found.\n"));
}

#[test]
fn faces_listing_text() {
    assert_eq!(
        font_faces_listing("DejaVu Sans", &vec!["DejaVuSans".to_string()]),
        "Font faces for 'DejaVu Sans':\n  DejaVuSans\n"
    );
    assert_eq!(font_faces_listing("x", &Vec::new()), "Font faces for 'x':\n  No fonts found.\n");
}

#[test]
fn families_do_not_depend_on_face_order() {
    let mut faces = vec![
        face("a", &["Gamma", "Alpha"]),
        face("b", &["Beta"]),
        face("c", &["Alpha", "Delta"]),
    ];
    let first = get_families(&faces);
    faces.reverse();
    assert_eq!(get_families(&faces), first);
    assert_eq!(first, vec!["Alpha", "Beta", "Delta", "Gamma"]);
}
