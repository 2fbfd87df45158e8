use cinderbox::config::{ProjectConfig, RemoteConfig, RemoteProvider};
use cinderbox::steps::remotes::{remote_name_problem, CursorTarget, RemotesHandler};
use cinderbox::steps::{Focus, Key, StepResult};
use cinderbox::widgets::text_input::TextInput;

fn config() -> ProjectConfig {
    ProjectConfig::default()
}

// --- Defaults ---

#[test]
fn remotes_default_state() {
    let h = RemotesHandler::default();
    assert_eq!(h.focus, Focus::Choice);
    assert!(h.expanded.is_none());
    assert_eq!(h.cursor, 0);
    assert!(h.configured.is_empty());
    assert!(!h.in_details());
    assert!(!h.is_expanded());
}

// --- Cursor navigation ---

#[test]
fn cursor_down_and_up() {
    let mut h = RemotesHandler::default();
    let mut c = config();
    h.handle_input(Key::Down, &mut c);
    assert_eq!(h.cursor, 1);
    h.handle_input(Key::Up, &mut c);
    assert_eq!(h.cursor, 0);
}

#[test]
fn remotes_cursor_clamps_at_bounds() {
    let mut h = RemotesHandler::default();
    let mut c = config();
    for _ in 0..50 {
        h.handle_input(Key::Down, &mut c);
    }
    assert_eq!(h.cursor, h.choice_count() - 1);
    for _ in 0..50 {
        h.handle_input(Key::Up, &mut c);
    }
    assert_eq!(h.cursor, 0);
}

// --- Next row ---

#[test]
fn enter_on_next_with_no_remotes_advances() {
    let mut h = RemotesHandler::default();
    let mut c = config();
    let result = h.handle_input(Key::Enter, &mut c);
    assert!(matches!(result, StepResult::Done));
    assert!(c.remotes.is_empty());
}

#[test]
fn enter_on_next_with_valid_remote_commits() {
    let mut h = RemotesHandler::default();
    h.configured.push(RemoteConfig {
        provider: RemoteProvider::GitHub,
        name: "origin".to_string(),
        location: "git@github.com:user/repo".to_string(),
        fetch: true,
        push: true,
    });
    let mut c = config();
    let result = h.handle_input(Key::Enter, &mut c);
    assert!(matches!(result, StepResult::Done));
    assert_eq!(c.remotes.len(), 1);
    assert_eq!(c.remotes[0].name, "origin");
}

#[test]
fn enter_on_next_blocked_by_invalid_remote() {
    let mut h = RemotesHandler::default();
    h.configured.push(RemoteConfig {
        provider: RemoteProvider::GitHub,
        name: String::new(),
        location: "git@github.com:user/repo".to_string(),
        fetch: true,
        push: true,
    });
    let mut c = config();
    let result = h.handle_input(Key::Enter, &mut c);
    assert!(matches!(result, StepResult::Continue));
    assert!(c.remotes.is_empty());
}

// --- Add remote via provider ---

#[test]
fn enter_on_provider_adds_and_expands() {
    let mut h = RemotesHandler::default();
    let mut c = config();
    // Move to first provider (index = 1 + 0 configured + 0 = 1)
    h.cursor = 1; // GitHub
    h.handle_input(Key::Enter, &mut c);
    assert_eq!(h.configured.len(), 1);
    assert_eq!(h.configured[0].provider, RemoteProvider::GitHub);
    assert_eq!(h.configured[0].name, "origin");
    assert!(h.configured[0].location.starts_with("git@github.com:"));
    assert!(h.configured[0].fetch);
    assert!(h.configured[0].push);
    assert_eq!(h.expanded, Some(0));
    assert_eq!(h.focus, Focus::SubField(0));
}

#[test]
fn second_remote_gets_empty_name() {
    let mut h = RemotesHandler::default();
    let mut c = config();
    h.cursor = 1;
    h.handle_input(Key::Enter, &mut c); // add first
    h.collapse_persist();
    // Now cursor to second provider (configured shifts things)
    h.cursor = 1 + h.configured.len(); // first provider after configured
    h.handle_input(Key::Enter, &mut c);
    assert_eq!(h.configured.len(), 2);
    assert_eq!(h.configured[1].name, "");
}

// --- No remotes ---

#[test]
fn no_remotes_clears_and_advances() {
    let mut h = RemotesHandler::default();
    h.configured.push(RemoteConfig {
        provider: RemoteProvider::GitHub,
        name: "origin".to_string(),
        location: "git@github.com:test".to_string(),
        fetch: true,
        push: true,
    });
    let mut c = config();
    c.remotes.push(RemoteConfig {
        provider: RemoteProvider::GitHub,
        name: "origin".to_string(),
        location: "git@github.com:test".to_string(),
        fetch: true,
        push: true,
    });
    h.cursor = h.choice_count() - 1; // No remotes
    let result = h.handle_input(Key::Enter, &mut c);
    assert!(matches!(result, StepResult::Done));
    assert!(h.configured.is_empty());
    assert!(c.remotes.is_empty());
}

// --- Remove configured ---

#[test]
fn space_removes_configured_remote() {
    let mut h = RemotesHandler::default();
    h.configured.push(RemoteConfig {
        provider: RemoteProvider::GitHub,
        name: "origin".to_string(),
        location: "git@github.com:test".to_string(),
        fetch: true,
        push: true,
    });
    let mut c = config();
    h.cursor = 1; // first configured
    h.handle_input(Key::Char(' '), &mut c);
    assert!(h.configured.is_empty());
}

#[test]
fn space_on_provider_is_noop() {
    let mut h = RemotesHandler::default();
    let mut c = config();
    h.cursor = 1; // first provider (no configured)
    h.handle_input(Key::Char(' '), &mut c);
    assert!(h.configured.is_empty());
}

// --- Expand / collapse ---

#[test]
fn enter_on_configured_expands() {
    let mut h = RemotesHandler::default();
    h.configured.push(RemoteConfig {
        provider: RemoteProvider::GitHub,
        name: "origin".to_string(),
        location: "git@github.com:test".to_string(),
        fetch: true,
        push: true,
    });
    let mut c = config();
    h.cursor = 1;
    h.handle_input(Key::Enter, &mut c);
    assert_eq!(h.expanded, Some(0));
    assert_eq!(h.focus, Focus::SubField(0));
    assert_eq!(h.name_input.value(), "origin");
}

#[test]
fn remotes_esc_returns_to_choice() {
    let mut h = RemotesHandler::default();
    let mut c = config();
    h.cursor = 1; // first provider
    h.handle_input(Key::Enter, &mut c); // add + expand
    assert_eq!(h.focus, Focus::SubField(0));
    h.handle_input(Key::Esc, &mut c);
    assert_eq!(h.focus, Focus::Choice);
    assert!(h.expanded.is_some()); // stays expanded
}

#[test]
fn left_collapses_expanded() {
    let mut h = RemotesHandler::default();
    h.configured.push(RemoteConfig {
        provider: RemoteProvider::GitHub,
        name: "origin".to_string(),
        location: "git@github.com:test".to_string(),
        fetch: true,
        push: true,
    });
    let mut c = config();
    h.cursor = 1;
    h.handle_input(Key::Enter, &mut c); // expand
    h.focus = Focus::Choice; // simulate Esc first
    let result = h.handle_input(Key::Left, &mut c);
    assert!(matches!(result, StepResult::Continue));
    assert!(h.expanded.is_none());
}

#[test]
fn remotes_left_backs_when_nothing_expanded() {
    let mut h = RemotesHandler::default();
    let mut c = config();
    let result = h.handle_input(Key::Left, &mut c);
    assert!(matches!(result, StepResult::Back));
}

// --- SubField navigation ---

#[test]
fn remotes_down_moves_through_nav_rows() {
    let mut h = RemotesHandler::default();
    let mut c = config();
    h.cursor = 1;
    h.handle_input(Key::Enter, &mut c); // add + expand
    assert_eq!(h.row_cursor, 0); // Name
    h.handle_input(Key::Down, &mut c);
    assert_eq!(h.row_cursor, 1); // Location
    h.handle_input(Key::Down, &mut c);
    assert_eq!(h.row_cursor, 2); // Operations
    h.handle_input(Key::Down, &mut c);
    assert_eq!(h.row_cursor, 3); // Confirm
}

#[test]
fn remotes_up_from_row_zero_returns_to_choice() {
    let mut h = RemotesHandler::default();
    let mut c = config();
    h.cursor = 1;
    h.handle_input(Key::Enter, &mut c);
    h.handle_input(Key::Up, &mut c);
    assert_eq!(h.focus, Focus::Choice);
}

// --- Operations toggle ---

#[test]
fn toggle_fetch_and_push() {
    let mut h = RemotesHandler::default();
    let mut c = config();
    h.cursor = 1;
    h.handle_input(Key::Enter, &mut c); // add + expand
    // Move to operations row
    h.row_cursor = 2;
    h.col_cursor = 0;
    // Toggle fetch off
    h.handle_input(Key::Char(' '), &mut c);
    assert!(!h.configured[0].fetch);
    assert!(h.configured[0].push);
    // Move to push
    h.handle_input(Key::Right, &mut c);
    assert_eq!(h.col_cursor, 1);
    // Toggle push off
    h.handle_input(Key::Char(' '), &mut c);
    assert!(!h.configured[0].push);
}

// --- Confirm validation ---

#[test]
fn confirm_blocked_with_empty_name() {
    let mut h = RemotesHandler::default();
    let mut c = config();
    // Add remote with empty name (second remote)
    h.configured.push(RemoteConfig {
        provider: RemoteProvider::GitHub,
        name: "first".to_string(),
        location: "git@github.com:test".to_string(),
        fetch: true,
        push: true,
    });
    h.cursor = 1 + h.configured.len(); // provider
    h.handle_input(Key::Enter, &mut c); // add second (empty name)
    // Move to confirm
    h.row_cursor = 3;
    h.handle_input(Key::Enter, &mut c);
    // Should still be expanded (blocked)
    assert!(h.expanded.is_some());
}

#[test]
fn confirm_succeeds_with_valid_data() {
    let mut h = RemotesHandler::default();
    let mut c = config();
    h.cursor = 1;
    h.handle_input(Key::Enter, &mut c); // add (name="origin", has prefix)
    // origin + github prefix = valid
    h.row_cursor = 3;
    h.handle_input(Key::Enter, &mut c);
    assert!(h.expanded.is_none());
    assert_eq!(h.focus, Focus::Choice);
}

// --- Name input ---

#[test]
fn name_input_captures_chars() {
    let mut h = RemotesHandler::default();
    let mut c = config();
    h.cursor = 1;
    h.handle_input(Key::Enter, &mut c);
    // Clear default name and type new one
    h.name_input = TextInput::new("Name");
    for ch in "upstream".chars() {
        h.handle_input(Key::Char(ch), &mut c);
    }
    assert_eq!(h.name_input.value(), "upstream");
    assert_eq!(h.configured[0].name, "upstream");
}

// --- Tab cycling ---

#[test]
fn tab_cycles_all_positions() {
    let mut h = RemotesHandler::default();
    let mut c = config();
    h.cursor = 1;
    h.handle_input(Key::Enter, &mut c);
    // Name(1) + Location(1) + Operations(2) + Confirm(1) = 5 positions
    let mut positions = vec![(h.row_cursor, h.col_cursor)];
    for _ in 0..4 {
        h.handle_input(Key::Tab, &mut c);
        positions.push((h.row_cursor, h.col_cursor));
    }
    assert_eq!(positions.len(), 5);
    // Should wrap
    h.handle_input(Key::Tab, &mut c);
    assert_eq!((h.row_cursor, h.col_cursor), (0, 0));
}

// --- Validation ---

#[test]
fn remote_name_problem_empty() {
    assert!(remote_name_problem("").is_some());
}

#[test]
fn remote_name_problem_valid() {
    assert!(remote_name_problem("origin").is_none());
    assert!(remote_name_problem("upstream").is_none());
    assert!(remote_name_problem("my-remote").is_none());
}

#[test]
fn remote_name_problem_whitespace() {
    assert!(remote_name_problem("my remote").is_some());
}

#[test]
fn remote_name_problem_special_chars() {
    assert!(remote_name_problem("my~remote").is_some());
    assert!(remote_name_problem("my:remote").is_some());
}

// --- Quit ---

#[test]
fn q_quits_at_choice() {
    let mut h = RemotesHandler::default();
    let mut c = config();
    let result = h.handle_input(Key::Char('q'), &mut c);
    assert!(matches!(result, StepResult::Quit));
}

// --- Restore from config ---

#[test]
fn remotes_restore_from_config_rehydrates() {
    let mut h = RemotesHandler::default();
    h.configured.push(RemoteConfig {
        provider: RemoteProvider::GitHub,
        name: "stale".to_string(),
        location: "stale".to_string(),
        fetch: true,
        push: false,
    });
    let c = ProjectConfig {
        remotes: vec![RemoteConfig {
            provider: RemoteProvider::GitLab,
            name: "origin".to_string(),
            location: "git@gitlab.com:org/repo".to_string(),
            fetch: true,
            push: true,
        }],
        ..Default::default()
    };
    h.restore_from_config(&c);
    assert_eq!(h.configured.len(), 1);
    assert_eq!(h.configured[0].provider, RemoteProvider::GitLab);
    assert_eq!(h.configured[0].name, "origin");
    assert_eq!(h.cursor, 0);
    assert!(h.expanded.is_none());
}

// --- planned_actions ---

#[test]
fn planned_actions_empty() {
    let h = RemotesHandler::default();
    let c = config();
    assert!(h.planned_actions(&c).is_empty());
}

#[test]
fn planned_actions_with_remotes() {
    let h = RemotesHandler::default();
    let c = ProjectConfig {
        remotes: vec![RemoteConfig {
            provider: RemoteProvider::GitHub,
            name: "origin".to_string(),
            location: "git@github.com:user/repo".to_string(),
            fetch: true,
            push: true,
        }],
        ..Default::default()
    };
    let actions = h.planned_actions(&c);
    assert_eq!(actions.len(), 1);
    assert!(actions[0].contains("origin"));
    assert!(actions[0].contains("fetch+push"));
}

// ----------------------------------------------------------------
// Additional coverage tests
// ----------------------------------------------------------------

// --- Vim j/k navigation ---

#[test]
fn vim_j_moves_cursor_down() {
    // 'j' must behave identically to Down in choice mode.
    let mut h = RemotesHandler::default();
    let mut c = config();
    h.handle_input(Key::Char('j'), &mut c);
    assert_eq!(h.cursor, 1, "j should increment cursor by 1");
    h.handle_input(Key::Char('j'), &mut c);
    assert_eq!(h.cursor, 2, "second j should increment again");
}

#[test]
fn vim_k_moves_cursor_up() {
    // 'k' must behave identically to Up in choice mode.
    let mut h = RemotesHandler::default();
    let mut c = config();
    h.cursor = 3;
    h.handle_input(Key::Char('k'), &mut c);
    assert_eq!(h.cursor, 2, "k should decrement cursor by 1");
}

#[test]
fn vim_k_clamps_at_zero() {
    // Saturating sub means k at 0 stays at 0.
    let mut h = RemotesHandler::default();
    let mut c = config();
    h.handle_input(Key::Char('k'), &mut c);
    assert_eq!(h.cursor, 0, "k at cursor 0 must not underflow");
}

// --- Right/l key same as Enter in choice mode ---

#[test]
fn right_key_on_provider_adds_remote() {
    // Right must trigger the same provider-add path as Enter.
    let mut h = RemotesHandler::default();
    let mut c = config();
    h.cursor = 1; // first provider (GitHub), no configured remotes yet
    h.handle_input(Key::Right, &mut c);
    assert_eq!(h.configured.len(), 1, "Right on provider should add a remote");
    assert_eq!(
        h.configured[0].provider,
        RemoteProvider::GitHub,
        "added remote must be GitHub"
    );
    assert_eq!(h.expanded, Some(0), "newly added remote should be expanded");
}

#[test]
fn l_key_on_provider_adds_remote() {
    // 'l' must trigger the same provider-add path as Enter.
    let mut h = RemotesHandler::default();
    let mut c = config();
    h.cursor = 1; // first provider (GitHub), no configured remotes yet
    h.handle_input(Key::Char('l'), &mut c);
    assert_eq!(h.configured.len(), 1, "l on provider should add a remote");
    assert_eq!(h.configured[0].provider, RemoteProvider::GitHub);
}

#[test]
fn l_key_on_next_with_valid_remote_commits() {
    // 'l' on Next must commit and return Done just like Enter.
    let mut h = RemotesHandler::default();
    h.configured.push(RemoteConfig {
        provider: RemoteProvider::GitHub,
        name: "origin".to_string(),
        location: "git@github.com:user/repo".to_string(),
        fetch: true,
        push: true,
    });
    let mut c = config();
    h.cursor = 0; // Next
    let result = h.handle_input(Key::Char('l'), &mut c);
    assert!(
        matches!(result, StepResult::Done),
        "l on Next should return Done"
    );
    assert_eq!(c.remotes.len(), 1, "config should be committed");
}

// --- h key same as Left in choice mode ---

#[test]
fn h_key_collapses_when_expanded() {
    // 'h' must collapse a currently-expanded panel (same as Left).
    let mut h = RemotesHandler::default();
    h.configured.push(RemoteConfig {
        provider: RemoteProvider::GitHub,
        name: "origin".to_string(),
        location: "git@github.com:test".to_string(),
        fetch: true,
        push: true,
    });
    let mut c = config();
    h.cursor = 1;
    h.handle_input(Key::Enter, &mut c); // expand
    h.focus = Focus::Choice; // simulate Esc (returns focus to Choice)
    let result = h.handle_input(Key::Char('h'), &mut c);
    assert!(
        matches!(result, StepResult::Continue),
        "h while expanded should not go Back"
    );
    assert!(h.expanded.is_none(), "panel should collapse on h");
}

#[test]
fn h_key_backs_when_nothing_expanded() {
    // 'h' with no expansion must return Back (same as Left).
    let mut h = RemotesHandler::default();
    let mut c = config();
    let result = h.handle_input(Key::Char('h'), &mut c);
    assert!(
        matches!(result, StepResult::Back),
        "h with no expansion should return Back"
    );
}

// --- Validation: Next blocked by empty location ---

#[test]
fn next_blocked_when_location_empty() {
    // A remote whose location is empty must prevent Next from committing.
    let mut h = RemotesHandler::default();
    h.configured.push(RemoteConfig {
        provider: RemoteProvider::SelfHosted,
        name: "origin".to_string(),
        location: String::new(), // SelfHosted has empty url_prefix
        fetch: true,
        push: true,
    });
    let mut c = config();
    h.cursor = 0; // Next
    let result = h.handle_input(Key::Enter, &mut c);
    assert!(
        matches!(result, StepResult::Continue),
        "Next should be blocked when location is empty"
    );
    assert!(
        c.remotes.is_empty(),
        "config must not be written when validation fails"
    );
}

// --- Validation: Next blocked when no operations checked ---

#[test]
fn next_blocked_when_no_operations() {
    // A remote with both fetch and push false must prevent Next from committing.
    let mut h = RemotesHandler::default();
    h.configured.push(RemoteConfig {
        provider: RemoteProvider::GitHub,
        name: "origin".to_string(),
        location: "git@github.com:user/repo".to_string(),
        fetch: false,
        push: false,
    });
    let mut c = config();
    h.cursor = 0; // Next
    let result = h.handle_input(Key::Enter, &mut c);
    assert!(
        matches!(result, StepResult::Continue),
        "Next should be blocked when no operations are selected"
    );
    assert!(
        c.remotes.is_empty(),
        "config must not be written when validation fails"
    );
}

// --- validate_current_live: direct unit tests ---

#[test]
fn validate_current_live_empty_location_reports_error() {
    // The sub-panel live validator must catch an empty location field.
    let mut h = RemotesHandler::default();
    h.configured.push(RemoteConfig {
        provider: RemoteProvider::SelfHosted,
        name: "origin".to_string(),
        location: String::new(),
        fetch: true,
        push: true,
    });
    h.expanded = Some(0);
    h.focus = Focus::SubField(0);
    h.name_input = TextInput::new("Name");
    h.name_input.set_value("origin");
    h.location_input = TextInput::new("Location");
    // location_input left at default empty value
    let msg = h.validate_current_live();
    assert!(
        msg.is_some(),
        "live validator must flag an empty location"
    );
    assert_eq!(
        msg,
        Some("Location cannot be empty."),
        "error message must identify the empty location"
    );
}

#[test]
fn validate_current_live_no_operations_reports_error() {
    // The sub-panel live validator must catch both-ops-off.
    let mut h = RemotesHandler::default();
    h.configured.push(RemoteConfig {
        provider: RemoteProvider::GitHub,
        name: "origin".to_string(),
        location: "git@github.com:user/repo".to_string(),
        fetch: false,
        push: false,
    });
    h.expanded = Some(0);
    h.focus = Focus::SubField(0);
    h.name_input = TextInput::new("Name");
    h.name_input.set_value("origin");
    h.location_input = TextInput::new("Location");
    h.location_input
        .set_value("git@github.com:user/repo");
    let msg = h.validate_current_live();
    assert!(
        msg.is_some(),
        "live validator must flag when no operations are selected"
    );
    assert_eq!(
        msg,
        Some("Must have at least one operation (fetch or push)."),
        "error message must identify missing operations"
    );
}

// --- Edge: removing the currently-expanded remote ---

#[test]
fn remove_expanded_remote_clears_expansion() {
    // Pressing Space on the currently-expanded remote must clear the expansion
    // and keep Focus::Choice without panicking.
    let mut h = RemotesHandler::default();
    h.configured.push(RemoteConfig {
        provider: RemoteProvider::GitHub,
        name: "origin".to_string(),
        location: "git@github.com:test".to_string(),
        fetch: true,
        push: true,
    });
    let mut c = config();
    // Expand the remote
    h.cursor = 1;
    h.handle_input(Key::Enter, &mut c);
    assert_eq!(h.expanded, Some(0), "precondition: remote must be expanded");
    // Return focus to Choice so Space removal is routed via handle_choice_input
    h.focus = Focus::Choice;
    // Remove while still logically expanded
    h.handle_input(Key::Char(' '), &mut c);
    assert!(
        h.configured.is_empty(),
        "configured list should be empty after removal"
    );
    assert!(
        h.expanded.is_none(),
        "expansion must be cleared when expanded remote is removed"
    );
    assert_eq!(
        h.focus,
        Focus::Choice,
        "focus must remain Choice after removing expanded remote"
    );
}

// --- Edge: cursor clamping when last item removed ---

#[test]
fn remove_last_remote_clamps_cursor() {
    // After removing the only configured remote while cursor points at it,
    // the cursor must remain within the (now-smaller) choice list.
    let mut h = RemotesHandler::default();
    h.configured.push(RemoteConfig {
        provider: RemoteProvider::GitHub,
        name: "origin".to_string(),
        location: "git@github.com:test".to_string(),
        fetch: true,
        push: true,
    });
    let mut c = config();
    h.cursor = 1; // pointing at the only configured remote
    h.handle_input(Key::Char(' '), &mut c);
    assert!(
        h.cursor < h.choice_count(),
        "cursor ({}) must be within choice_count ({}) after removal",
        h.cursor,
        h.choice_count()
    );
}

// --- Edge: removing an earlier remote shifts expansion index ---

#[test]
fn remove_earlier_remote_shifts_expanded_index() {
    // When remote[0] is removed and remote[1] is expanded,
    // the expanded index must shift from 1 to 0.
    let mut h = RemotesHandler::default();
    h.configured.push(RemoteConfig {
        provider: RemoteProvider::GitHub,
        name: "first".to_string(),
        location: "git@github.com:first".to_string(),
        fetch: true,
        push: true,
    });
    h.configured.push(RemoteConfig {
        provider: RemoteProvider::Codeberg,
        name: "second".to_string(),
        location: "git@codeberg.org:second".to_string(),
        fetch: true,
        push: true,
    });
    let mut c = config();
    // Expand the second remote (index 1, cursor 2)
    h.cursor = 2;
    h.handle_input(Key::Enter, &mut c);
    assert_eq!(h.expanded, Some(1), "precondition: second remote should be expanded");
    // Return focus to Choice so Space removal is routed correctly
    h.focus = Focus::Choice;
    // Remove the first remote (cursor 1) while second is expanded
    h.cursor = 1;
    h.handle_input(Key::Char(' '), &mut c);
    assert_eq!(h.configured.len(), 1, "first remote should be gone");
    assert_eq!(
        h.configured[0].name, "second",
        "remaining remote should be the second one"
    );
    assert_eq!(
        h.expanded,
        Some(0),
        "expanded index must shift from 1 to 0 after earlier remote is removed"
    );
}

// --- Multiple configured remotes: cursor_target correctness ---

#[test]
fn cursor_target_with_multiple_configured() {
    // With two configured remotes the cursor positions must map to the right targets.
    // 0->Next, 1->Configured(0), 2->Configured(1), 3->Provider(GitHub), last->NoRemotes
    let mut h = RemotesHandler::default();
    h.configured.push(RemoteConfig {
        provider: RemoteProvider::GitHub,
        name: "origin".to_string(),
        location: "git@github.com:a".to_string(),
        fetch: true,
        push: true,
    });
    h.configured.push(RemoteConfig {
        provider: RemoteProvider::GitLab,
        name: "upstream".to_string(),
        location: "git@gitlab.com:b".to_string(),
        fetch: true,
        push: true,
    });

    h.cursor = 0;
    assert_eq!(h.cursor_target(), CursorTarget::Next, "cursor 0 must be Next");

    h.cursor = 1;
    assert_eq!(
        h.cursor_target(),
        CursorTarget::Configured(0),
        "cursor 1 must be Configured(0)"
    );

    h.cursor = 2;
    assert_eq!(
        h.cursor_target(),
        CursorTarget::Configured(1),
        "cursor 2 must be Configured(1)"
    );

    h.cursor = 3;
    assert_eq!(
        h.cursor_target(),
        CursorTarget::Provider(RemoteProvider::GitHub),
        "cursor 3 must be the first provider (GitHub)"
    );

    h.cursor = h.choice_count() - 1;
    assert_eq!(
        h.cursor_target(),
        CursorTarget::NoRemotes,
        "last cursor position must be NoRemotes"
    );
}

// --- BackTab cycles backward through sub-panel positions ---

#[test]
fn backtab_cycles_backward() {
    // After Tab advances forward one step, BackTab must retreat to the start.
    let mut h = RemotesHandler::default();
    let mut c = config();
    h.cursor = 1; // first provider
    h.handle_input(Key::Enter, &mut c); // add + expand, starts at (0,0)

    // Advance one step with Tab
    h.handle_input(Key::Tab, &mut c);
    let after_tab = (h.row_cursor, h.col_cursor);

    // BackTab must return to start
    h.handle_input(Key::BackTab, &mut c);
    assert_eq!(
        (h.row_cursor, h.col_cursor),
        (0, 0),
        "BackTab after one Tab must return to (row=0, col=0); after_tab was {after_tab:?}"
    );
}

#[test]
fn backtab_wraps_from_first_to_last() {
    // BackTab at position (0,0) must wrap around to the last flat position.
    let mut h = RemotesHandler::default();
    let mut c = config();
    h.cursor = 1;
    h.handle_input(Key::Enter, &mut c); // expand, starts at (0,0)

    // BackTab from (0,0) must jump to the last flat position.
    h.handle_input(Key::BackTab, &mut c);

    // FLAT_NAV: (0,0),(1,0),(2,0),(2,1),(3,0) — 5 positions.
    // Last is Confirm: row=3, col=0.
    assert_eq!(
        h.row_cursor, 3,
        "BackTab from first position must land on Confirm row (row=3)"
    );
    assert_eq!(
        h.col_cursor, 0,
        "BackTab from first position must land at col 0 of Confirm row"
    );
}

// --- Location text input captures characters ---

#[test]
fn location_input_captures_chars() {
    // The location sub-field must forward typed characters to location_input
    // and sync them into configured[].location.
    let mut h = RemotesHandler::default();
    let mut c = config();
    h.cursor = 1; // first provider (GitHub)
    h.handle_input(Key::Enter, &mut c); // add + expand; row_cursor=0 (Name)

    // Move down to Location row
    h.handle_input(Key::Down, &mut c);
    assert_eq!(h.row_cursor, 1, "should be on Location row after Down");

    // Clear the provider-seeded prefix and type a fresh value
    h.location_input = TextInput::new("Location");
    for ch in "git@example.com:org/repo".chars() {
        h.handle_input(Key::Char(ch), &mut c);
    }
    assert_eq!(
        h.location_input.value(),
        "git@example.com:org/repo",
        "location_input must contain all typed characters"
    );
    assert_eq!(
        h.configured[0].location,
        "git@example.com:org/repo",
        "typed text must be synced into configured[0].location"
    );
}

