use rust_recon::idl::{extract_instructions_from_idl, parse_idl};
use rust_recon::workspace::{member_candidates, program_name};

#[test]
fn members_are_named_by_their_last_part() {
    let toml = "[workspace]\nmembers = [\"programs/vault\", 7, \"programs/escrow/\", \"./amm/.\"]\n";
    let got = member_candidates(toml).unwrap();
    assert_eq!(
        got,
        vec![
            (Some("vault".to_string()), "programs/vault".to_string()),
            (Some("escrow".to_string()), "programs/escrow/".to_string()),
            (Some("amm".to_string()), "./amm/.".to_string()),
        ]
    );
}

#[test]
fn missing_members_and_bad_toml() {
    assert_eq!(member_candidates("[provider]\ncluster = \"localnet\"\n"), Some(vec![]));
    assert_eq!(member_candidates("[workspace]\nmembers = \"programs/x\"\n"), Some(vec![]));
    assert_eq!(member_candidates("[workspace\nmembers = ["), None);
}

#[test]
fn program_names_of_odd_paths() {
    assert_eq!(program_name("a/../b"), Some("b".to_string()));
    assert_eq!(program_name("programs/.."), None);
    assert_eq!(program_name(""), None);
    assert_eq!(program_name("/"), None);
    assert_eq!(program_name("solo"), Some("solo".to_string()));
}

#[test]
fn idl_text_is_read_into_instruction_names() {
    let doc = parse_idl("{\"instructions\": [{\"name\": \"initialize\"}, {\"args\": []}, {\"name\": 3}, {\"name\": \"swap\"}]}")
        .unwrap();
    let names: Vec<Option<String>> = doc.instructions.as_ref().unwrap().iter().map(|e| e.name.clone()).collect();
    assert_eq!(names, vec![Some("initialize".to_string()), None, None, Some("swap".to_string())]);
    let scope = extract_instructions_from_idl(&doc);
    assert_eq!(scope.len(), 2);
    assert_eq!(scope[0].context, "Initialize");
}

#[test]
fn idl_without_instructions_or_not_json() {
    let doc = parse_idl("{\"version\": \"0.1.0\"}").unwrap();
    assert!(doc.instructions.is_none());
    assert!(parse_idl("[1, 2]").unwrap().instructions.is_none());
    assert!(parse_idl("{ not json").is_none());
}
