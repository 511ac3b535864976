use rinha::pessoa::{CreatePessoaRequest, Pessoa, PessoaInput, PessoaRow};

fn input(apelido: &str, nome: &str, nascimento: &str, stack: Option<Vec<&str>>) -> PessoaInput {
    PessoaInput {
        apelido: apelido.to_string(),
        nome: nome.to_string(),
        nascimento: nascimento.to_string(),
        stack: stack.map(|items| items.into_iter().map(|s| s.to_string()).collect()),
    }
}

fn request(apelido: &str, nome: &str, nascimento: &str, stack: Vec<&str>) -> CreatePessoaRequest {
    CreatePessoaRequest {
        apelido: apelido.to_string(),
        nome: nome.to_string(),
        nascimento: nascimento.to_string(),
        stack: stack.into_iter().map(|s| s.to_string()).collect(),
    }
}

#[test]
fn well_formed_input_is_valid() {
    assert!(input("ana", "Ana Silva", "1990-01-15", Some(vec!["rust", "go"])).validate());
    assert!(input("ana", "Ana Silva", "1990-01-15", None).validate());
    assert!(input("ana", "Ana Silva", "1990-01-15", Some(vec![])).validate());
}

#[test]
fn oversize_handle_is_rejected() {
    let handle = "a".repeat(33);
    assert!(!input(&handle, "Ana", "1990-01-15", None).validate());
}

#[test]
fn handle_of_exactly_the_limit_is_accepted() {
    let handle = "a".repeat(32);
    assert!(input(&handle, "Ana", "1990-01-15", None).validate());
}

#[test]
fn handle_length_counts_bytes() {
    // 17 two-byte characters are 34 bytes.
    let handle = "é".repeat(17);
    assert!(!input(&handle, "Ana", "1990-01-15", None).validate());
    let handle = "é".repeat(16);
    assert!(input(&handle, "Ana", "1990-01-15", None).validate());
}

#[test]
fn empty_handle_is_rejected() {
    assert!(!input("", "Ana", "1990-01-15", None).validate());
}

#[test]
fn empty_name_is_rejected() {
    assert!(!input("ana", "", "1990-01-15", None).validate());
}

#[test]
fn oversize_name_is_rejected() {
    let name = "n".repeat(101);
    assert!(!input("ana", &name, "1990-01-15", None).validate());
    let name = "n".repeat(100);
    assert!(input("ana", &name, "1990-01-15", None).validate());
}

#[test]
fn malformed_date_is_rejected() {
    assert!(!input("b", "B", "1990-13-40", None).validate());
}

#[test]
fn date_must_exist_in_the_calendar() {
    assert!(!input("b", "B", "1990-02-30", None).validate());
    assert!(!input("b", "B", "1900-02-29", None).validate());
    assert!(input("b", "B", "2000-02-29", None).validate());
}

#[test]
fn date_must_follow_the_pattern() {
    assert!(!input("b", "B", "15/01/1990", None).validate());
    assert!(!input("b", "B", "1990-01-15T00:00:00", None).validate());
    assert!(!input("b", "B", "", None).validate());
    assert!(!input("b", "B", "yesterday", None).validate());
}

#[test]
fn oversize_tag_is_rejected() {
    let tag = "t".repeat(33);
    assert!(!input("ana", "Ana", "1990-01-15", Some(vec!["rust", &tag])).validate());
    let tag = "t".repeat(32);
    assert!(input("ana", "Ana", "1990-01-15", Some(vec!["rust", &tag])).validate());
}

#[test]
fn tag_with_a_space_is_rejected() {
    assert!(!input("ana", "Ana", "1990-01-15", Some(vec!["visual basic"])).validate());
    assert!(!input("ana", "Ana", "1990-01-15", Some(vec!["rust", " "])).validate());
}

#[test]
fn validate_given_takes_the_date_check_as_it_is_told() {
    let good = input("ana", "Ana", "not a date", None);
    assert!(good.validate_given(true));
    assert!(!good.validate_given(false));
    let bad = input("", "Ana", "1990-01-15", None);
    assert!(!bad.validate_given(true));
}

#[test]
fn request_validation_agrees_with_input_validation() {
    assert!(request("ana", "Ana", "1990-01-15", vec!["rust"]).validate());
    assert!(!request("ana", "Ana", "1990-13-40", vec!["rust"]).validate());
    assert!(!request("ana", "Ana", "1990-01-15", vec!["a b"]).validate());
    assert!(!request(&"a".repeat(33), "Ana", "1990-01-15", vec![]).validate());
    let tag = "t".repeat(32);
    assert!(request("ana", "Ana", "1990-01-15", vec![&tag]).validate());
    assert!(request("ana", "Ana", "bad", vec![]).validate_given(true));
    assert!(!request("ana", "Ana", "1990-01-15", vec![]).validate_given(false));
}

#[test]
fn absent_tags_become_an_empty_list() {
    let made = CreatePessoaRequest::from(input("ana", "Ana", "1990-01-15", None));
    assert_eq!(made, request("ana", "Ana", "1990-01-15", vec![]));
    let made = CreatePessoaRequest::from(input("ana", "Ana", "1990-01-15", Some(vec!["rust", "go"])));
    assert_eq!(made, request("ana", "Ana", "1990-01-15", vec!["rust", "go"]));
}

#[test]
fn record_keeps_the_request_and_takes_the_identifier() {
    let made = Pessoa::with_id(request("ana", "Ana Silva", "1990-01-15", vec!["rust"]), "id-1".to_string());
    assert_eq!(
        made,
        Some(Pessoa {
            id: "id-1".to_string(),
            apelido: "ana".to_string(),
            nome: "Ana Silva".to_string(),
            nascimento: "1990-01-15".to_string(),
            stack: Some(vec!["rust".to_string()]),
        })
    );
}

#[test]
fn no_record_from_a_malformed_request() {
    assert_eq!(Pessoa::with_id(request("ana", "Ana", "1990-13-40", vec![]), "id-1".to_string()), None);
    assert_eq!(Pessoa::from(request("", "Ana", "1990-01-15", vec![])), None);
}

#[test]
fn minted_identifier_has_the_canonical_shape() {
    let pessoa = Pessoa::from(request("ana", "Ana", "1990-01-15", vec![])).unwrap();
    let id: Vec<char> = pessoa.id.chars().collect();
    assert_eq!(id.len(), 36);
    for (i, c) in id.iter().enumerate() {
        if i == 8 || i == 13 || i == 18 || i == 23 {
            assert_eq!(*c, '-');
        } else {
            assert!(matches!(*c, '0'..='9' | 'a'..='f'));
        }
    }
    assert_eq!(pessoa.apelido, "ana");
    assert_eq!(pessoa.stack, Some(vec![]));
}

#[test]
fn minted_identifiers_differ() {
    let a = Pessoa::from(request("ana", "Ana", "1990-01-15", vec![])).unwrap();
    let b = Pessoa::from(request("ana", "Ana", "1990-01-15", vec![])).unwrap();
    assert_ne!(a.id, b.id);
}

#[test]
fn row_joins_the_tags_with_a_space() {
    let pessoa = Pessoa {
        id: "id-1".to_string(),
        apelido: "ana".to_string(),
        nome: "Ana Silva".to_string(),
        nascimento: "1990-01-15".to_string(),
        stack: Some(vec!["rust".to_string(), "go".to_string(), "c".to_string()]),
    };
    assert_eq!(
        pessoa.to_row(),
        PessoaRow {
            id: "id-1".to_string(),
            nome: "Ana Silva".to_string(),
            apelido: "ana".to_string(),
            nascimento: "1990-01-15".to_string(),
            stack: Some("rust go c".to_string()),
        }
    );
}

#[test]
fn row_without_tags_has_no_tags_column() {
    let pessoa = Pessoa {
        id: "id-1".to_string(),
        apelido: "ana".to_string(),
        nome: "Ana".to_string(),
        nascimento: "1990-01-15".to_string(),
        stack: None,
    };
    assert_eq!(pessoa.to_row().stack, None);
    assert_eq!(Pessoa::from_row(&pessoa.to_row()), pessoa);
}

#[test]
fn stored_record_reads_back_as_written() {
    let pessoa = Pessoa {
        id: "id-1".to_string(),
        apelido: "ana".to_string(),
        nome: "Ana Silva".to_string(),
        nascimento: "1990-01-15".to_string(),
        stack: Some(vec!["rust".to_string(), "".to_string(), "go".to_string()]),
    };
    assert_eq!(pessoa.to_row().stack, Some("rust  go".to_string()));
    assert_eq!(Pessoa::from_row(&pessoa.to_row()), pessoa);
}

#[test]
fn empty_tag_list_reads_back_as_one_empty_tag() {
    let pessoa = Pessoa {
        id: "id-1".to_string(),
        apelido: "ana".to_string(),
        nome: "Ana".to_string(),
        nascimento: "1990-01-15".to_string(),
        stack: Some(vec![]),
    };
    let row = pessoa.to_row();
    assert_eq!(row.stack, Some(String::new()));
    assert_eq!(Pessoa::from_row(&row).stack, Some(vec![String::new()]));
}
