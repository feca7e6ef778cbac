use comma::index::{
    check_database_exists, check_database_updated, index_database, index_query, is_database_old,
    names, package_listing, update_database, DatabaseWarning, IndexError, MAX_AGE_SECS,
};

fn strings(parts: &[&str]) -> Vec<String> {
    parts.iter().map(|p| p.to_string()).collect()
}

#[test]
fn index_query_asks_for_the_executable_by_its_whole_name() {
    let query = index_query("htop");
    assert_eq!(query.program, "nix-locate");
    assert_eq!(query.args, strings(&["--minimal", "--at-root", "--whole-name", "/bin/htop"]));
    assert_eq!(query.name, None);
}

#[test]
fn index_database_lists_the_candidates_in_order() {
    let found = index_database(true, "htop.out\nbusybox.out\nzsh.out\n", b"");
    assert_eq!(found.ok(), Some(strings(&["htop.out", "busybox.out", "zsh.out"])));
}

#[test]
fn index_database_trims_each_candidate() {
    let found = index_database(true, "\n  htop.out \r\n\tbusybox.out\r\n\n", b"ignored");
    assert_eq!(found.ok(), Some(strings(&["htop.out", "busybox.out"])));
}

#[test]
fn index_database_keeps_a_single_candidate() {
    let found = index_database(true, "nixpkgs.htop", b"");
    assert_eq!(found.ok(), Some(strings(&["nixpkgs.htop"])));
}

#[test]
fn index_database_without_output_is_no_match() {
    match index_database(true, "", b"some noise") {
        Err(IndexError::NoMatch) => {},
        other => panic!("{:?}", other),
    }
}

#[test]
fn index_database_of_white_space_is_no_match() {
    for stdout in ["\n", " ", "\t\r\n", "\n\n\n", " \n \n\u{a0}\n"] {
        match index_database(true, stdout, b"") {
            Err(IndexError::NoMatch) => {},
            other => panic!("{:?}: {:?}", stdout, other),
        }
    }
}

#[test]
fn index_database_leaves_blank_lines_out() {
    let found = index_database(true, "htop.out\n\nbusybox.out\n \t \nzsh.out", b"");
    assert_eq!(found.ok(), Some(strings(&["htop.out", "busybox.out", "zsh.out"])));
    let found = index_database(true, "\r\n\r\nhtop.out\r\n\r\n", b"");
    assert_eq!(found.ok(), Some(strings(&["htop.out"])));
}

#[test]
fn index_database_names_package_identifiers_only() {
    let outputs = ["a", " a \n b ", "\n\na.out\n\n\nb.out\n", "x y\n\tz\r\n", "é\n\u{3000}ü\u{3000}"];
    for stdout in outputs {
        let found = index_database(true, stdout, b"").unwrap_or_else(|e| panic!("{:?}", e));
        assert!(!found.is_empty());
        for name in &found {
            assert!(!name.is_empty());
            assert_eq!(name.trim(), name);
            assert!(!name.contains('\n'));
        }
    }
}

#[test]
fn names_are_the_lines_that_are_not_blank() {
    assert_eq!(names(&strings(&[" a ", "", "b\t", " \r", "c d"])), strings(&["a", "b", "c d"]));
    assert_eq!(names(&strings(&["", " ", "\n"])), strings(&[]));
    assert_eq!(names(&strings(&[])), strings(&[]));
}

#[test]
fn index_database_of_a_failed_run_carries_the_diagnostic() {
    match index_database(false, "htop.out\n", b"error: no database\n") {
        Err(IndexError::QueryFailed(Some(text))) => assert_eq!(text, "error: no database\n"),
        other => panic!("{:?}", other),
    }
}

#[test]
fn index_database_of_a_failed_run_without_text() {
    match index_database(false, "", &[0xff, 0xfe, 0x00]) {
        Err(IndexError::QueryFailed(None)) => {},
        other => panic!("{:?}", other),
    }
}

#[test]
fn index_errors_are_told_to_the_user() {
    assert_eq!(
        IndexError::NoMatch.message("htop"),
        "No executable `htop` found in nix-index database."
    );
    assert_eq!(
        IndexError::QueryFailed(Some("boom".to_string())).message("htop"),
        "nix-locate failed with: boom"
    );
    assert_eq!(IndexError::QueryFailed(None).message("htop"), "nix-locate failed");
}

#[test]
fn package_listing_puts_one_package_to_a_line() {
    assert_eq!(
        package_listing("vi", &strings(&["vim.out", "neovim.out"])),
        "Packages that contain /bin/vi:\n- vim.out\n- neovim.out"
    );
    assert_eq!(package_listing("vi", &strings(&["vim.out"])), "Packages that contain /bin/vi:\n- vim.out");
    assert_eq!(package_listing("vi", &strings(&[])), "Packages that contain /bin/vi:\n");
}

#[test]
fn thirty_days_in_seconds() {
    assert_eq!(MAX_AGE_SECS, 2_592_000);
}

#[test]
fn database_is_old_after_more_than_thirty_days() {
    assert!(!is_database_old(0, 0, false));
    assert!(!is_database_old(2_591_999, 999_999_999, false));
    assert!(!is_database_old(2_592_000, 0, false));
    assert!(is_database_old(2_592_000, 1, false));
    assert!(is_database_old(2_592_001, 0, false));
    assert!(is_database_old(u64::MAX, 0, false));
}

#[test]
fn read_only_database_is_never_old() {
    assert!(!is_database_old(2_592_001, 0, true));
    assert!(!is_database_old(u64::MAX, 999_999_999, true));
}

#[test]
fn missing_database_is_warned_of() {
    assert_eq!(check_database_exists(false), Err(DatabaseWarning::Missing));
    assert_eq!(check_database_exists(true), Ok(()));
    assert_eq!(check_database_updated(false, false, 0, 0), Some(DatabaseWarning::Missing));
    assert_eq!(check_database_updated(false, true, u64::MAX, 0), Some(DatabaseWarning::Missing));
}

#[test]
fn stale_database_is_warned_of() {
    assert_eq!(check_database_updated(true, false, 2_592_001, 0), Some(DatabaseWarning::Stale));
    assert_eq!(check_database_updated(true, false, 2_592_000, 0), None);
    assert_eq!(check_database_updated(true, true, 2_592_001, 0), None);
    assert_eq!(check_database_updated(true, false, 5, 0), None);
}

#[test]
fn warnings_are_told_to_the_user() {
    assert_eq!(
        DatabaseWarning::Missing.message(),
        "Warning: Nix-index database does not exist, either obtain a prebuilt database from https://github.com/Mic92/nix-index-database or try updating with `nix run 'nixpkgs#nix-index' --extra-experimental-features 'nix-command flakes'`."
    );
    assert_eq!(
        DatabaseWarning::Stale.message(),
        "Warning: Nix-index database is older than 30 days, either obtain a prebuilt database from https://github.com/Mic92/nix-index-database or try updating with `nix run 'nixpkgs#nix-index' --extra-experimental-features 'nix-command flakes'`."
    );
}

#[test]
fn update_database_calls_the_indexer() {
    let call = update_database();
    assert_eq!(call.program, "nix-index");
    assert_eq!(call.args, Vec::<String>::new());
    assert_eq!(call.name, None);
}
