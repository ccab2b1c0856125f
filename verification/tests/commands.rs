use svnpush_core::svn::commands::{
    batches, checkout_args, cleanup_args, command_line, commit_args, commit_result, copy_result, deepen_args,
    diff_args, info_url_args, is_same_repository, listing, network_args, retry_notice, revert_args, status_args,
    tag_args, tag_exists, tag_names, update_args, verify_step, VerifyStep,
};
use svnpush_core::svn::{SvnError, TagVerification};

fn strings(items: &[&str]) -> Vec<String> {
    items.iter().map(|s| s.to_string()).collect()
}

#[test]
fn network_commands_time_out_and_read_the_password_from_stdin() {
    let args = network_args(strings(&["list", "https://plugins.svn.wordpress.org/demo"]), Some("bob"));
    assert_eq!(
        args,
        [
            "list",
            "https://plugins.svn.wordpress.org/demo",
            "--config-option",
            "servers:global:http-timeout=60",
            "--no-auth-cache",
            "--username",
            "bob",
            "--password-from-stdin",
        ]
    );
    let args = network_args(strings(&["cat", "u"]), None);
    assert_eq!(args, ["cat", "u", "--config-option", "servers:global:http-timeout=60", "--no-auth-cache"]);
    let (command, args) = command_line(strings(&["commit", "-m", "x"]));
    assert_eq!(command, "commit");
    assert_eq!(args.last().unwrap(), "--non-interactive");
    assert_eq!(command_line(Vec::new()).0, "");
}

#[test]
fn many_paths_are_split_into_calls_of_a_hundred() {
    let paths: Vec<String> = (0..250).map(|i| format!("f{i}")).collect();
    let calls = batches(&["delete", "--force"], &paths);
    assert_eq!(calls.len(), 3);
    assert_eq!(calls[0].len(), 102);
    assert_eq!(calls[2].len(), 52);
    assert_eq!(&calls[1][..3], ["delete", "--force", "f100"]);
    assert_eq!(calls[2].last().unwrap(), "f249");
    assert!(batches(&["add"], &[]).is_empty());
    assert_eq!(batches(&["add"], &strings(&["a"])), [strings(&["add", "a"])]);
}

#[test]
fn a_working_copy_is_reused_only_for_the_same_repository() {
    assert!(is_same_repository("https://x/p/\n", "https://x/p"));
    assert!(is_same_repository("https://x/p", "https://x/p//"));
    assert!(!is_same_repository("https://x/q\n", "https://x/p"));
}

#[test]
fn listings_and_tags() {
    let entries = listing("1.0/\n 1.1/ \r\n\nreadme.txt\n");
    assert_eq!(entries, ["1.0/", "1.1/", "readme.txt"]);
    let tags = tag_names(&entries);
    assert_eq!(tags, ["1.0", "1.1"]);
    assert!(tag_exists(&tags, "1.1"));
    assert!(!tag_exists(&tags, "1.2"));
}

#[test]
fn tag_and_commit_commands() {
    assert_eq!(
        tag_args("https://x/p/", "1.2.0", Some(41), "Tag 1.2.0"),
        ["copy", "https://x/p/trunk@41", "https://x/p/tags/1.2.0", "--message", "Tag 1.2.0"]
    );
    assert_eq!(tag_args("https://x/p", "1.2.0", None, "m")[1], "https://x/p/trunk");
    assert_eq!(
        commit_args("Release 1.2.0", &strings(&["/wc/trunk", "/wc/assets"])),
        ["commit", "--message", "Release 1.2.0", "/wc/trunk", "/wc/assets"]
    );
}

#[test]
fn commit_and_copy_outputs() {
    assert_eq!(commit_result("  \n").ok().unwrap(), None);
    assert_eq!(commit_result("Sending a\nCommitted revision 42.\n").ok().unwrap(), Some(42));
    match commit_result("Sending a\n") {
        Err(SvnError::Parse { detail }) => assert_eq!(detail, "no revision in commit output"),
        _ => panic!("output without a revision is an error"),
    }
    assert_eq!(copy_result("Committed revision 43.\n").ok().unwrap(), 43);
    match copy_result("") {
        Err(e) => assert_eq!(e.code(), "SVN_PARSE"),
        Ok(_) => panic!("no revision"),
    }
}

#[test]
fn working_copy_commands() {
    assert_eq!(info_url_args("/wc"), ["info", "--show-item", "url", "/wc"]);
    assert_eq!(checkout_args("https://x/p", "/wc"), ["checkout", "--depth", "immediates", "https://x/p", "/wc"]);
    assert_eq!(update_args("/wc"), ["update", "--depth", "immediates", "/wc"]);
    assert_eq!(deepen_args(&strings(&["/wc/trunk"])), ["update", "--set-depth", "infinity", "/wc/trunk"]);
    assert_eq!(cleanup_args("/wc"), ["cleanup", "/wc"]);
    assert_eq!(diff_args("/wc/trunk"), ["diff", "--internal-diff", "/wc/trunk"]);
    let folders = strings(&["/wc/trunk", "/wc/assets"]);
    assert_eq!(status_args(&folders, true).unwrap(), ["status", "--xml", "--show-updates", "/wc/trunk", "/wc/assets"]);
    assert_eq!(status_args(&folders, false).unwrap(), ["status", "--xml", "/wc/trunk", "/wc/assets"]);
    assert!(status_args(&[], true).is_none());
    assert_eq!(revert_args(&folders).unwrap(), ["revert", "--recursive", "/wc/trunk", "/wc/assets"]);
    assert!(revert_args(&[]).is_none());
}

#[test]
fn tag_verification_tries_three_times() {
    assert!(matches!(verify_step(1, Ok(None)), VerifyStep::Done(TagVerification::Verified)));
    match verify_step(1, Ok(Some("readme.txt is not listed in the tag yet.".into()))) {
        VerifyStep::Retry(why) => assert_eq!(why, "readme.txt is not listed in the tag yet."),
        _ => panic!("retry"),
    }
    match verify_step(3, Err(SvnError::Network { detail: "timeout".into() })) {
        VerifyStep::Done(TagVerification::Unverified(why)) => {
            assert_eq!(why, "could not reach the SVN server: timeout")
        }
        _ => panic!("unverified after the last try"),
    }
    assert!(matches!(verify_step(2, Err(SvnError::Cancelled)), VerifyStep::Stop(SvnError::Cancelled)));
    assert_eq!(retry_notice(2), "Verifying the tag again (2 of 3).");
}
