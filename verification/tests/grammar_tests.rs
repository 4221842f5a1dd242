use vql::errors::{ItemKind, VqlError};
use vql::grammar::{parse_command, Command};

#[test]
fn test_parse_functional_store() {
    let c = parse_command(":uc.st(a, \"Looks good\")").unwrap();
    assert_eq!(
        c,
        Command::StoreReview {
            asset: String::from("uc"),
            principle: String::from("a"),
            content: String::from("Looks good"),
        }
    );
}

#[test]
fn test_parse_functional_store_joins_commas() {
    // Extra commas in the content are rejoined with a comma and a space.
    let c = parse_command(":uc.st(a, first, second)").unwrap();
    assert_eq!(
        c,
        Command::StoreReview {
            asset: String::from("uc"),
            principle: String::from("a"),
            content: String::from("first, second"),
        }
    );
}

#[test]
fn test_parse_flag_store() {
    let c = parse_command("-st uc a \"Looks good\"").unwrap();
    assert_eq!(
        c,
        Command::StoreReview {
            asset: String::from("uc"),
            principle: String::from("a"),
            content: String::from("Looks good"),
        }
    );
}

// Grammar equivalence: the functional and the flag form of a store parse
// to the same command.
#[test]
fn test_grammar_equivalence_parse() {
    let f = parse_command(":uc.st(a,\"Looks good\")").unwrap();
    let g = parse_command("-st uc a \"Looks good\"").unwrap();
    assert_eq!(f, g);
}

#[test]
fn test_parse_question_forms() {
    let expect_all = Command::ShowAsset { name: String::from("uc"), principles: None };
    assert_eq!(parse_command(":uc ?").unwrap(), expect_all);
    assert_eq!(parse_command(":uc?").unwrap(), expect_all);
    assert_eq!(parse_command("uc ?").unwrap(), expect_all);
    assert_eq!(parse_command("uc?").unwrap(), expect_all);

    let expect_one = Command::ShowAsset {
        name: String::from("uc"),
        principles: Some(String::from("a")),
    };
    assert_eq!(parse_command(":uc?(a)").unwrap(), expect_one);
    assert_eq!(parse_command(":uc ? (a)").unwrap(), expect_one);
    assert_eq!(parse_command("uc ? (a)").unwrap(), expect_one);

    let expect_two = Command::ShowAsset {
        name: String::from("uc"),
        principles: Some(String::from("a,s")),
    };
    assert_eq!(parse_command(":uc?(a,s)").unwrap(), expect_two);
}

#[test]
fn test_parse_adds() {
    assert_eq!(
        parse_command(":pr.add(a, Architecture, \"Keep layers apart\")").unwrap(),
        Command::AddPrinciple {
            short_name: String::from("a"),
            long_name: String::from("Architecture"),
            guidance: Some(String::from("Keep layers apart")),
        }
    );
    assert_eq!(
        parse_command(":pr.add(a, Architecture)").unwrap(),
        Command::AddPrinciple {
            short_name: String::from("a"),
            long_name: String::from("Architecture"),
            guidance: None,
        }
    );
    assert_eq!(
        parse_command(":er.add(u, User)").unwrap(),
        Command::AddEntity { short_name: String::from("u"), description: String::from("User") }
    );
    assert_eq!(
        parse_command(":at.add(c, Controller)").unwrap(),
        Command::AddAssetType {
            short_name: String::from("c"),
            description: String::from("Controller"),
        }
    );
    assert_eq!(
        parse_command(":ar.add(uc, u, c, \"/tmp/x.js\")").unwrap(),
        Command::AddAssetReference {
            short_name: String::from("uc"),
            entity: String::from("u"),
            asset_type: String::from("c"),
            path: String::from("/tmp/x.js"),
        }
    );
    // The dashed functional form takes an unquoted or quoted path.
    assert_eq!(
        parse_command(":-ar.add(uc, u, c, /tmp/x.js)").unwrap(),
        Command::AddAssetReference {
            short_name: String::from("uc"),
            entity: String::from("u"),
            asset_type: String::from("c"),
            path: String::from("/tmp/x.js"),
        }
    );
}

#[test]
fn test_parse_flag_adds() {
    assert_eq!(
        parse_command("-pr -add a Architecture \"Guidelines\"").unwrap(),
        Command::AddPrinciple {
            short_name: String::from("a"),
            long_name: String::from("Architecture"),
            guidance: Some(String::from("\"Guidelines\"")),
        }
    );
    assert_eq!(
        parse_command("-er -add u User").unwrap(),
        Command::AddEntity { short_name: String::from("u"), description: String::from("User") }
    );
    // The description falls back to the short name.
    assert_eq!(
        parse_command("-er -add u").unwrap(),
        Command::AddEntity { short_name: String::from("u"), description: String::from("u") }
    );
    assert_eq!(
        parse_command("-ar -add uc u c /tmp/x.js").unwrap(),
        Command::AddAssetReference {
            short_name: String::from("uc"),
            entity: String::from("u"),
            asset_type: String::from("c"),
            path: String::from("/tmp/x.js"),
        }
    );
}

#[test]
fn test_parse_generic_and_typed_rename_delete() {
    assert_eq!(
        parse_command(":rn(a, b)").unwrap(),
        Command::RenameGeneric { old_name: String::from("a"), new_name: String::from("b") }
    );
    assert_eq!(
        parse_command(":dl(a)").unwrap(),
        Command::DeleteGeneric { name: String::from("a") }
    );
    assert_eq!(
        parse_command("-rn a b").unwrap(),
        Command::RenameGeneric { old_name: String::from("a"), new_name: String::from("b") }
    );
    assert_eq!(
        parse_command("-pr -rn a q").unwrap(),
        Command::RenamePrinciple { old_name: String::from("a"), new_name: String::from("q") }
    );
    assert_eq!(
        parse_command("-er -dl u").unwrap(),
        Command::DeleteEntity { name: String::from("u") }
    );
    assert_eq!(
        parse_command("-ar -rn uc userctl").unwrap(),
        Command::RenameAssetReference {
            old_name: String::from("uc"),
            new_name: String::from("userctl"),
        }
    );
}

#[test]
fn test_parse_listings() {
    assert_eq!(parse_command(":ls()").unwrap(), Command::ListAll);
    assert_eq!(parse_command(":ls").unwrap(), Command::ListAll);
    assert_eq!(parse_command(":pr").unwrap(), Command::ListPrinciples);
    assert_eq!(parse_command(":er()").unwrap(), Command::ListEntities);
    assert_eq!(parse_command(":-at").unwrap(), Command::ListAssetTypes);
    assert_eq!(parse_command("-ar").unwrap(), Command::ListAssetReferences);
    assert_eq!(parse_command("-pr").unwrap(), Command::ListPrinciples);
}

#[test]
fn test_parse_exemplar_compliance_setup() {
    assert_eq!(
        parse_command(":uc.se(t)").unwrap(),
        Command::SetExemplar { asset: String::from("uc"), value: String::from("t") }
    );
    assert_eq!(
        parse_command("-se uc f").unwrap(),
        Command::SetExemplar { asset: String::from("uc"), value: String::from("f") }
    );
    assert_eq!(
        parse_command(":uc.sc(a, h)").unwrap(),
        Command::SetCompliance {
            asset: String::from("uc"),
            principle: String::from("a"),
            rating: String::from("h"),
        }
    );
    assert_eq!(
        parse_command("-sc uc a H").unwrap(),
        Command::SetCompliance {
            asset: String::from("uc"),
            principle: String::from("a"),
            rating: String::from("H"),
        }
    );
    assert_eq!(
        parse_command(":-su(\"~/proj\")").unwrap(),
        Command::Setup { path: Some(String::from("~/proj")) }
    );
    assert_eq!(parse_command("-su").unwrap(), Command::Setup { path: None });
    assert_eq!(
        parse_command("-su ~/my proj").unwrap(),
        Command::Setup { path: Some(String::from("~/my proj")) }
    );
}

#[test]
fn test_parse_instruction_commands() {
    assert_eq!(
        parse_command(":uc.rv(*)").unwrap(),
        Command::ReviewAsset { asset: String::from("uc"), args: String::from("*") }
    );
    assert_eq!(
        parse_command(":uc.rf(a, ref1)").unwrap(),
        Command::RefactorAsset { asset: String::from("uc"), args: String::from("a, ref1") }
    );
    assert_eq!(
        parse_command(":-rv(*)").unwrap(),
        Command::GlobalReview { args: String::from("*") }
    );
    assert_eq!(
        parse_command(":-rf(-pr)").unwrap(),
        Command::GlobalRefactor { args: String::from("-pr") }
    );
    assert_eq!(
        parse_command(":-pr.get(\"~/principles.md\")").unwrap(),
        Command::LoadPrinciples { path: String::from("~/principles.md") }
    );
    assert_eq!(
        parse_command("-pr -get /home/u/p.md").unwrap(),
        Command::LoadPrinciples { path: String::from("/home/u/p.md") }
    );
}

#[test]
fn test_parse_mode_commands() {
    assert_eq!(parse_command(":-vql on").unwrap(), Command::VqlMode { on: true });
    assert_eq!(parse_command(":-vql off").unwrap(), Command::VqlMode { on: false });
    assert_eq!(parse_command(":mcp").unwrap(), Command::InterfaceMode { mcp: true });
    assert_eq!(parse_command(":cli").unwrap(), Command::InterfaceMode { mcp: false });
}

#[test]
fn test_parse_errors() {
    assert!(matches!(
        parse_command("hello world"),
        Err(VqlError::UnrecognizedFormat { .. })
    ));
    assert!(matches!(parse_command("-zz x"), Err(VqlError::UnknownCommand { .. })));
    assert!(matches!(
        parse_command("-pr add a b"),
        Err(VqlError::InvalidSubcommand { .. })
    ));
    assert!(matches!(
        parse_command("-pr -zap a"),
        Err(VqlError::UnknownSubcommand { kind: ItemKind::Principle, .. })
    ));
    assert!(matches!(
        parse_command("-rn onlyone"),
        Err(VqlError::NotEnoughArguments { .. })
    ));
    assert!(matches!(
        parse_command("-st uc a"),
        Err(VqlError::NotEnoughArguments { .. })
    ));
    assert!(matches!(
        parse_command(":uc.sc(a)"),
        Err(VqlError::NotEnoughArguments { .. })
    ));
}
