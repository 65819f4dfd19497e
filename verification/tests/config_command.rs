use llm_manager::commands::config::{
    is_profile_file, parse_config_args, profile_list_line, should_copy_profile, validation_json,
    validation_lines, validation_outcome, ConfigCommand, ValidationItem,
};
use llm_manager::json::escape_json;
use llm_manager::profile::profile_from_contents;

fn args(list: &[&str]) -> Vec<String> {
    list.iter().map(|s| s.to_string()).collect()
}

#[test]
fn config_subcommands_and_flags() {
    assert!(matches!(parse_config_args(&args(&[])), Ok(ConfigCommand::Show { verbose: false })));
    assert!(matches!(
        parse_config_args(&args(&["show", "--verbose"])),
        Ok(ConfigCommand::Show { verbose: true })
    ));
    assert!(matches!(parse_config_args(&args(&["edit", "x"])), Ok(ConfigCommand::Edit)));
    assert!(matches!(
        parse_config_args(&args(&["init", "--force"])),
        Ok(ConfigCommand::Init { force: true })
    ));
    assert!(matches!(parse_config_args(&args(&["nope", "-h"])), Ok(ConfigCommand::Help)));
    match parse_config_args(&args(&["validate"])) {
        Ok(ConfigCommand::Validate { json, dir, use_user, use_project }) => {
            assert!(!json && dir.is_none() && use_user && use_project);
        }
        _ => panic!("expected validate"),
    }
    match parse_config_args(&args(&["validate", "--json", "--dir", "/tmp/p"])) {
        Ok(ConfigCommand::Validate { json, dir, use_user, use_project }) => {
            assert!(json && !use_user && !use_project);
            assert_eq!(dir.as_deref(), Some("/tmp/p"));
        }
        _ => panic!("expected validate"),
    }
    match parse_config_args(&args(&["validate", "--project"])) {
        Ok(ConfigCommand::Validate { use_user, use_project, .. }) => {
            assert!(!use_user && use_project);
        }
        _ => panic!("expected validate"),
    }
}

#[test]
fn config_argument_errors() {
    let err = |list: &[&str]| match parse_config_args(&args(list)) {
        Err(e) => e,
        Ok(_) => "accepted".to_string(),
    };
    assert_eq!(err(&["show", "--verbose", "--all"]), "Unknown flag for config show: --all");
    assert_eq!(err(&["init", "x"]), "Unknown flag for config init: x");
    assert_eq!(err(&["validate", "--dir"]), "Missing value for --dir");
    assert_eq!(err(&["validate", "--dir", "d", "--user"]), "Do not combine --dir with --user/--project");
    assert_eq!(err(&["validate", "--quiet"]), "Unknown flag for config validate: --quiet");
    assert_eq!(err(&["purge"]), "Unknown config subcommand: purge");
}

#[test]
fn profile_files_and_copies() {
    assert!(is_profile_file("safe.toml"));
    assert!(is_profile_file("a.b.toml"));
    assert!(!is_profile_file(".toml"));
    assert!(!is_profile_file("safe.yaml"));
    assert!(!is_profile_file("toml"));
    assert!(should_copy_profile(false, false));
    assert!(!should_copy_profile(true, false));
    assert!(should_copy_profile(true, true));
}

#[test]
fn verbose_listing_shows_every_value() {
    let p = profile_from_contents("runtime = \"llama\"\ncontext_length = 2048\ncache_type_k = \"q8_0\"")
        .unwrap();
    assert_eq!(
        profile_list_line("safe.toml", Some(&p)),
        " - safe.toml (runtime=llama.cpp, model=-, warning_model=-, context_length=2048, \
max_tokens=-, threads=-, gpu_layers=-, cache_type_k=q8_0, cache_type_v=-, max_model_len=-, \
max_num_seqs=-, quantization=-, precision=-)"
    );
    assert_eq!(profile_list_line("safe.toml", None), " - safe.toml");
}

#[test]
fn validation_report_json_and_text() {
    let items = vec![
        ValidationItem::new("a.toml".to_string(), None),
        ValidationItem::new("b.toml".to_string(), Some("Invalid profile line 1: threads 4".to_string())),
    ];
    assert_eq!(items[0].status, "ok");
    assert_eq!(items[1].status, "error");
    assert_eq!(
        validation_json(&items),
        "{\"results\":[{\"name\":\"a.toml\",\"status\":\"ok\"},\
{\"name\":\"b.toml\",\"status\":\"error\",\"error\":\"Invalid profile line 1: threads 4\"}],\
\"summary\":{\"total\":2,\"ok\":1,\"failed\":1}}"
    );
    assert_eq!(
        validation_lines(&items),
        vec![
            "Validated 2 profiles (ok 1, failed 1).".to_string(),
            "Failures:".to_string(),
            " - b.toml: Invalid profile line 1: threads 4".to_string(),
        ]
    );
    assert_eq!(validation_outcome(&items), Err("Profile validation failed".to_string()));
}

#[test]
fn empty_validation_run() {
    let items: Vec<ValidationItem> = Vec::new();
    assert_eq!(
        validation_json(&items),
        "{\"results\":[],\"summary\":{\"total\":0,\"ok\":0,\"failed\":0}}"
    );
    assert_eq!(validation_lines(&items), vec!["No profiles found to validate.".to_string()]);
    assert_eq!(validation_outcome(&items), Ok(()));
}

#[test]
fn json_escaping() {
    assert_eq!(escape_json("a\"b\\c\nd\re\tf"), "a\\\"b\\\\c\\nd\\re\\tf");
    assert_eq!(escape_json("plain é"), "plain é");
}
