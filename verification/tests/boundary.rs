use inferlets::boundary::{
    accept_rung, checkpoint_wanted, full_boundary, ladder_cuts, ladder_rungs, plan_save,
    prompt_retry_wanted, save_landed, settle_save, starts_with, yes, BoundaryDirective,
    KvDiagnostics, OpenOutcome, OpenReport, SaveOutcome, SavePlan, LADDER_DEPTH,
};

fn directive(key: &str, enabled: bool) -> BoundaryDirective {
    BoundaryDirective { key: key.to_string(), compat: String::new(), turn: 0, enabled }
}

#[test]
fn cold_outcome_reports_everything_as_appended() {
    let o = OpenOutcome::cold(120);
    assert!(!o.found && !o.exact);
    assert_eq!((o.reused_tokens, o.appended_tokens), (0, 120));
}

/// The guard that distinguishes reuse from serving another conversation's
/// KV. Same length, different content, must be rejected.
#[test]
fn same_length_different_prefix_is_not_a_prefix() {
    let canonical = vec![1u32, 2, 3, 4];
    let impostor = vec![9u32, 9, 9];
    assert!(!starts_with(&canonical, &impostor));
    assert!(starts_with(&canonical, &[1u32, 2, 3]));
}

#[test]
fn prompt_only_save_is_a_successful_partial_checkpoint() {
    let outcome = SaveOutcome { prompt_saved: true, full_saved: false };
    assert!(outcome.prompt_saved);
    assert!(!outcome.full_saved);
}

#[test]
fn absent_directive_disables_reuse_quietly() {
    let d = BoundaryDirective::default();
    assert!(d.key.is_empty(), "an empty key is the no-reuse signal");
}

#[test]
fn default_directive_keeps_reuse_enabled() {
    let d = BoundaryDirective::default();
    assert!(d.enabled);
    assert_eq!(d.compat, "");
    assert_eq!(d.turn, 0);
    assert!(yes());
    assert!(!d.reuse_enabled());
}

#[test]
fn reuse_needs_both_a_key_and_the_flag() {
    assert!(directive("c1", true).reuse_enabled());
    assert!(!directive("c1", false).reuse_enabled());
    assert!(!directive("", true).reuse_enabled());
}

#[test]
fn cold_start_is_not_a_resident_hit() {
    let o = OpenOutcome::cold(7);
    assert!(!o.is_resident_hit());
    assert_eq!(o.resident_pages, None);
    assert_eq!(o.replayed_pages, None);
    assert!(!o.rs_replayed);
}

fn found(replayed: Option<u32>, rs_replayed: bool) -> OpenOutcome {
    OpenOutcome {
        found: true,
        reused_tokens: 800,
        appended_tokens: 3,
        exact: false,
        resident_pages: Some(12),
        replayed_pages: replayed,
        rs_replayed,
    }
}

#[test]
fn resident_hit_needs_zero_replayed_pages() {
    assert!(found(Some(0), false).is_resident_hit());
    assert!(!found(Some(2), false).is_resident_hit());
    assert!(!found(None, false).is_resident_hit());
    assert!(!found(Some(0), true).is_resident_hit());
    let mut not_found = found(Some(0), false);
    not_found.found = false;
    assert!(!not_found.is_resident_hit());
}

#[test]
fn kv_projection_keeps_the_wire_fields() {
    let o = found(Some(0), false);
    let kv = o.kv();
    assert_eq!(
        kv,
        KvDiagnostics {
            boundary_found: true,
            reused_tokens: 800,
            resident_pages: Some(12),
            replayed_pages: Some(0),
            rs_replayed: false,
        }
    );
    assert_eq!(OpenOutcome::cold(5).kv(), KvDiagnostics::default());
}

#[test]
fn kv_projection_narrows_the_token_count_like_a_cast() {
    let mut o = found(Some(1), true);
    o.reused_tokens = (u32::MAX as usize) + 3;
    let kv = o.kv();
    assert_eq!(kv.reused_tokens, 2);
    assert!(kv.rs_replayed);
    assert_eq!(kv.replayed_pages, Some(1));
}

fn report() -> OpenReport {
    OpenReport { resident_prefix_pages: 4, replayed_pages: 0, rs_replayed: false }
}

#[test]
fn accept_rung_refuses_a_foreign_prefix_of_the_same_length() {
    let canonical = vec![1u32, 2, 3, 4];
    assert!(accept_rung(&canonical, &vec![9u32, 9, 9, 9], report()).is_none());
    assert!(accept_rung(&canonical, &vec![1u32, 2, 9], report()).is_none());
    assert!(accept_rung(&canonical, &vec![1u32, 2, 3, 4, 5], report()).is_none());
}

#[test]
fn accept_rung_appends_the_missing_suffix() {
    let canonical = vec![1u32, 2, 3, 4];
    let reuse = accept_rung(&canonical, &vec![1u32, 2, 3], report()).unwrap();
    assert_eq!(reuse.suffix, vec![4u32]);
    assert_eq!(
        reuse.outcome,
        OpenOutcome {
            found: true,
            reused_tokens: 3,
            appended_tokens: 1,
            exact: false,
            resident_pages: Some(4),
            replayed_pages: Some(0),
            rs_replayed: false,
        }
    );
    assert!(reuse.outcome.is_resident_hit());
}

#[test]
fn accept_rung_on_the_exact_boundary_appends_nothing() {
    let canonical = vec![5u32, 6];
    let replayed = OpenReport { resident_prefix_pages: 0, replayed_pages: 2, rs_replayed: true };
    let reuse = accept_rung(&canonical, &canonical, replayed).unwrap();
    assert!(reuse.suffix.is_empty());
    assert!(reuse.outcome.exact);
    assert_eq!(reuse.outcome.reused_tokens + reuse.outcome.appended_tokens, 2);
    assert!(!reuse.outcome.is_resident_hit());
    assert_eq!(reuse.outcome.replayed_pages, Some(2));
}

#[test]
fn ladder_descends_at_most_its_depth() {
    assert_eq!(LADDER_DEPTH, 4);
    assert_eq!(ladder_cuts(6), vec![6usize, 5, 4, 3, 2]);
    assert_eq!(ladder_cuts(4), vec![4usize, 3, 2, 1, 0]);
    assert_eq!(ladder_cuts(2), vec![2usize, 1, 0]);
    assert_eq!(ladder_cuts(0), vec![0usize]);
}

#[test]
fn ladder_keeps_built_non_empty_rungs_in_order() {
    let built = vec![Some(vec![1u32, 2, 3]), None, Some(vec![]), Some(vec![1u32])];
    assert_eq!(ladder_rungs(built), vec![vec![1u32, 2, 3], vec![1u32]]);
    assert!(ladder_rungs(vec![None, Some(vec![])]).is_empty());
}

#[test]
fn checkpoint_needs_reuse_and_tokens() {
    assert!(checkpoint_wanted(&directive("c1", true), &[1, 2]));
    assert!(!checkpoint_wanted(&directive("c1", true), &[]));
    assert!(!checkpoint_wanted(&directive("", true), &[1]));
    assert!(!checkpoint_wanted(&directive("c1", false), &[1]));
}

#[test]
fn already_existing_name_counts_as_saved() {
    assert!(save_landed(&Ok(())));
    assert!(save_landed(&Err("snapshot 'x' already exists".to_string())));
    assert!(!save_landed(&Err("out of pages".to_string())));
    assert!(!save_landed(&Err("already exist".to_string())));
    assert!(!save_landed(&Err(String::new())));
}

#[test]
fn save_plan_follows_directive_and_answer() {
    assert_eq!(plan_save(&directive("", true), Some("hi")), SavePlan::Disabled);
    assert_eq!(plan_save(&directive("c1", false), Some("hi")), SavePlan::Disabled);
    assert_eq!(plan_save(&directive("c1", true), None), SavePlan::PromptOnly);
    assert_eq!(plan_save(&directive("c1", true), Some("")), SavePlan::PromptOnly);
    assert_eq!(plan_save(&directive("c1", true), Some("hi")), SavePlan::WithAnswer);
}

#[test]
fn prompt_is_retried_only_when_the_entry_save_failed() {
    let d = directive("c1", true);
    assert!(prompt_retry_wanted(false, &d, &[1]));
    assert!(!prompt_retry_wanted(true, &d, &[1]));
    assert!(!prompt_retry_wanted(false, &d, &[]));
    assert!(!prompt_retry_wanted(false, &directive("", true), &[1]));
}

#[test]
fn full_boundary_is_prompt_then_answer() {
    let full = full_boundary(&vec![1u32, 2], &vec![7u32, 8, 9]);
    assert_eq!(full, vec![1u32, 2, 7, 8, 9]);
    assert!(starts_with(&full, &[1, 2]));
    assert_eq!(full_boundary(&vec![], &vec![3u32]), vec![3u32]);
}

#[test]
fn settled_outcome_reports_by_plan() {
    assert_eq!(settle_save(SavePlan::Disabled, true, true), SaveOutcome::disabled());
    assert_eq!(
        settle_save(SavePlan::PromptOnly, true, true),
        SaveOutcome { prompt_saved: true, full_saved: false }
    );
    assert_eq!(
        settle_save(SavePlan::WithAnswer, false, true),
        SaveOutcome { prompt_saved: false, full_saved: true }
    );
    let d = SaveOutcome::disabled();
    assert!(!d.prompt_saved && !d.full_saved);
}
