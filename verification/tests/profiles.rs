use cx_cli::profiles::{profile_list, ProfileEntry};
use cx_cli::profiles::{
    build_profile_non_interactive, custom_base_url_from, extract_host, output_formats,
    parse_region_flag, picker_regions, region_from_url, region_option_label,
    region_picker_options, resolve_region_flags, resolve_url_choice, AuthKind,
    CredentialStorage, OutputFormat, Region, RegionChoice, CUSTOM_ENDPOINT_OPTION,
    REGION_DEFAULT_CURSOR,
};

#[test]
fn every_output_format_is_selectable_in_picker() {
    let formats = output_formats();
    for variant in OutputFormat::all() {
        assert!(
            formats.contains(&variant.as_str()),
            "the picker is missing canonical variant {:?}",
            variant.as_str(),
        );
    }
}

#[test]
fn region_default_cursor_points_at_eu2() {
    assert_eq!(picker_regions()[REGION_DEFAULT_CURSOR], Region::Eu2);
}

#[test]
fn region_flag_parses_known_shortname() {
    let region = parse_region_flag("eu2").expect("eu2 is a known region");
    assert_eq!(region, Region::Eu2);
}

#[test]
fn region_flag_is_case_insensitive() {
    let region = parse_region_flag("EU2").expect("region flag should be case-insensitive");
    assert_eq!(region, Region::Eu2);
}

#[test]
fn region_flag_rejects_unknown_shortname() {
    let err = parse_region_flag("eu22").expect_err("eu22 is not a region");
    assert!(
        err.message().contains("unknown region 'eu22'"),
        "error should name the bad value, got: {}",
        err.message()
    );
}

#[test]
fn every_region_option_is_short_name_and_url_template() {
    for region in picker_regions() {
        let template = region
            .app_url_template()
            .expect("picker region must have an app URL template");
        assert_eq!(
            region_option_label(&region),
            format!("({}) {template}", region.as_str())
        );
        assert!(
            !matches!(region, Region::Custom(_)),
            "picker entry {} is not a known region",
            region.as_str()
        );
    }
}

#[test]
fn region_picker_ends_with_custom_endpoint() {
    let options = region_picker_options();
    assert_eq!(options[options.len() - 1], CUSTOM_ENDPOINT_OPTION);
    assert_eq!(options.len(), picker_regions().len() + 1);
}

#[test]
fn custom_base_url_adds_scheme_when_missing() {
    assert_eq!(
        custom_base_url_from("api.myenv.example.com").as_deref(),
        Some("https://api.myenv.example.com")
    );
}

#[test]
fn custom_base_url_preserves_scheme_and_strips_slash() {
    assert_eq!(
        custom_base_url_from("http://api.myenv.example.com/").as_deref(),
        Some("http://api.myenv.example.com")
    );
}

#[test]
fn custom_base_url_rejects_hostless_input() {
    assert_eq!(custom_base_url_from(""), None);
    assert_eq!(custom_base_url_from("   "), None);
}

#[test]
fn extract_host_reads_the_authority() {
    assert_eq!(
        extract_host("https://user@api.eu2.coralogix.com:443/path?q=1").as_deref(),
        Some("api.eu2.coralogix.com")
    );
    assert_eq!(extract_host("api.myenv.internal").as_deref(), Some("api.myenv.internal"));
    assert_eq!(extract_host(""), None);
    assert_eq!(extract_host("https:///nothing"), None);
}

#[test]
fn the_eu2_label_carries_its_console_host() {
    assert_eq!(region_option_label(&Region::Eu2), "(eu2) app.eu2.coralogix.com");
    assert_eq!(
        region_option_label(&Region::Custom("https://api.x".to_string())),
        "https://api.x"
    );
}

#[test]
fn a_profile_without_a_terminal_needs_key_and_region() {
    let err = build_profile_non_interactive(None, None).unwrap_err();
    assert_eq!(
        err.message(),
        "no region — pass --url or --region\nno API key — pass --api-key or set CX_API_KEY"
    );
    let err = build_profile_non_interactive(Some("k".to_string()), None).unwrap_err();
    assert_eq!(err.message(), "no region — pass --url or --region");

    let (profile, desc) = build_profile_non_interactive(
        Some("key".to_string()),
        Some(RegionChoice::Custom {
            base_url: "https://api.myenv".to_string(),
        }),
    )
    .unwrap();
    assert_eq!(desc, "profile file");
    assert_eq!(profile.auth, AuthKind::ApiKey);
    assert_eq!(profile.credential_storage, CredentialStorage::File);
    assert_eq!(profile.api_key.as_deref(), Some("key"));
    assert_eq!(profile.region, Region::Custom("https://api.myenv".to_string()));
}

#[test]
fn no_region_flags_resolve_to_none() {
    assert!(resolve_region_flags(None, None)
        .ok()
        .expect("no flags is valid")
        .is_none());
}

#[test]
fn url_flag_derives_known_region() {
    let choice = resolve_region_flags(Some("https://myteam.app.eu2.coralogix.com"), None)
        .ok()
        .expect("recognizable URL")
        .expect("URL flag should produce a choice");
    assert!(
        matches!(choice, RegionChoice::Known(Region::Eu2)),
        "app URL should derive eu2"
    );
}

#[test]
fn url_flag_unresolved_becomes_custom_endpoint() {
    let choice = resolve_region_flags(Some("https://api.myenv.internal/"), None)
        .ok()
        .expect("host-bearing URL")
        .expect("URL flag should produce a choice");
    match choice {
        RegionChoice::Custom { base_url } => assert_eq!(base_url, "https://api.myenv.internal"),
        RegionChoice::Known(_) => panic!("unknown host must not resolve to a known region"),
    }
}

#[test]
fn url_flag_without_host_is_rejected() {
    match resolve_region_flags(Some(""), None) {
        Err(err) => assert!(
            err.message().contains("not a valid URL"),
            "error should say the URL is invalid, got: {}",
            err.message()
        ),
        Ok(_) => panic!("empty URL has no host"),
    }
}

#[test]
fn url_flag_schemeless_host_is_stored_verbatim() {
    let choice = resolve_region_flags(Some("api.myenv.internal"), None)
        .ok()
        .expect("host-bearing input")
        .expect("URL flag should produce a choice");
    match choice {
        RegionChoice::Custom { base_url } => {
            assert_eq!(base_url, "api.myenv.internal")
        }
        RegionChoice::Known(region) => {
            panic!("unknown host must not resolve to a known region {}", region.as_str())
        }
    }
}

#[test]
fn url_flag_unlisted_region_becomes_custom_endpoint() {
    let choice = resolve_region_flags(Some("https://team.app.stg1.coralogix.net"), None)
        .ok()
        .expect("host-bearing URL")
        .expect("URL flag should produce a choice");
    match choice {
        RegionChoice::Custom { base_url } => {
            assert_eq!(base_url, "https://team.app.stg1.coralogix.net")
        }
        RegionChoice::Known(region) => {
            panic!("expected custom endpoint, got known region {}", region.as_str())
        }
    }
}

#[test]
fn paste_url_for_listed_region_stays_known() {
    match resolve_url_choice("https://team.app.eu2.coralogix.com").unwrap() {
        RegionChoice::Known(region) => assert_eq!(region.as_str(), "eu2"),
        RegionChoice::Custom { base_url } => {
            panic!("expected known region eu2, got custom endpoint {base_url}")
        }
    }
}

#[test]
fn paste_url_for_unlisted_region_becomes_custom_endpoint() {
    match resolve_url_choice("https://team.app.stg1.coralogix.net").unwrap() {
        RegionChoice::Custom { base_url } => {
            assert_eq!(base_url, "https://team.app.stg1.coralogix.net")
        }
        RegionChoice::Known(region) => {
            panic!("expected custom endpoint, got known region {}", region.as_str())
        }
    }
}

#[test]
fn region_flag_wins_over_url_and_must_be_known() {
    let choice = resolve_region_flags(Some("https://api.myenv.internal"), Some("AP1"))
        .ok()
        .unwrap()
        .unwrap();
    assert!(matches!(choice, RegionChoice::Known(Region::Ap1)));
    assert!(resolve_region_flags(None, Some("mars1")).is_err());
}

#[test]
fn region_from_url_reads_console_hosts_in_any_case() {
    assert!(matches!(region_from_url("https://app.coralogix.com/#/dashboards"), Some(Region::Eu1)));
    assert!(matches!(region_from_url("HTTPS://Team.App.AP3.Coralogix.com"), Some(Region::Ap3)));
    assert!(region_from_url("https://notapp.coralogix.com").is_none());
    assert!(resolve_url_choice("   ").is_none());
}

#[test]
fn the_profile_list_pads_columns_to_their_widest_cell() {
    let entries = vec![
        ProfileEntry {
            name: "production".to_string(),
            label: Some("Prod".to_string()),
            region: Region::Eu2,
            auth: AuthKind::ApiKey,
            output: Some(OutputFormat::Json),
        },
        ProfileEntry {
            name: "dev".to_string(),
            label: None,
            region: Region::Us1,
            auth: AuthKind::OAuth,
            output: None,
        },
    ];
    let lines = profile_list(&entries, "dev");
    assert_eq!(
        lines,
        vec![
            "NAME        LABEL  REGION  AUTH      OUTPUT  DEFAULT",
            "----------  -----  ------  --------  ------  -------",
            "production  Prod   eu2     api-key   json    ",
            "dev         -      us1     oauth     -       yes",
        ]
    );
}

#[test]
fn the_profile_list_without_profiles_is_a_note() {
    assert_eq!(
        profile_list(&[], "default"),
        vec!["No profiles configured. Run `cx profiles add` to create one."]
    );
}
