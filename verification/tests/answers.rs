use typesafe_api::{find_entry, ModelCard, ModelsResponse, Usage};

#[test]
fn find_entry_returns_first_match() {
    let entries = vec![
        ("department".to_string(), 1),
        ("is_urgent".to_string(), 2),
        ("department".to_string(), 3),
    ];
    assert_eq!(find_entry(&entries, "department"), Some(0));
    assert_eq!(find_entry(&entries, "is_urgent"), Some(1));
    assert_eq!(find_entry(&entries, "frustration"), None);
    assert_eq!(find_entry(&entries, ""), None);
    let empty: Vec<(String, u8)> = Vec::new();
    assert_eq!(find_entry(&empty, "x"), None);
}

#[test]
fn plain_response_types() {
    let u = Usage { input_tokens: 10, output_tokens: 3 };
    assert_eq!(u, Usage { input_tokens: 10, output_tokens: 3 });
    let m = ModelsResponse {
        models: vec![ModelCard {
            name: "jev-latest".into(),
            description: "d".into(),
            release_date: "2025-01-01".into(),
        }],
    };
    assert_eq!(m.models[0].name, "jev-latest");
}
