use dinner_days::generate::{Collection, Generate};
use dinner_days::lines::{active_lines, comment_out};
use dinner_days::EngineError;

fn entries(items: &[&str]) -> Vec<String> {
    items.iter().map(|s| s.to_string()).collect()
}

fn sorted(v: &[String]) -> Vec<String> {
    let mut s = v.to_vec();
    s.sort();
    s
}

#[test]
fn fresh_load_draws_requested_count() {
    let input = entries(&["Pasta", "Tacos", "Soup", "Salad", "Curry"]);
    let engine = Generate::read_entries(input.clone(), None, 3, false);
    assert_eq!(engine.days().len(), 3);
    assert_eq!(engine.pool().len(), 2);
    // every selected entry comes from the input, none is selected twice,
    // and none is still in the pool
    for (i, day) in engine.days().iter().enumerate() {
        assert!(input.contains(day));
        assert!(!engine.pool().contains(day));
        for other in engine.days().iter().skip(i + 1) {
            assert_ne!(day, other);
        }
    }
    // the selection and the remaining pool together are exactly the input
    let mut both = engine.days().clone();
    both.extend(engine.pool().iter().cloned());
    assert_eq!(sorted(&both), sorted(&input));
}

#[test]
fn oversized_request_is_clamped() {
    let input = entries(&["Pasta", "Tacos", "Soup"]);
    let engine = Generate::read_entries(input.clone(), None, 7, false);
    assert_eq!(engine.days().len(), 3);
    assert_eq!(engine.pool().len(), 0);
    assert_eq!(sorted(engine.days()), sorted(&input));
}

#[test]
fn load_is_idempotent_with_existing_output() {
    let input = entries(&["Pasta", "Tacos", "Soup", "Salad", "Curry"]);
    let prev = entries(&["Tacos", "Soup"]);
    let first = Generate::read_entries(input.clone(), Some(prev.clone()), 7, false);
    let second = Generate::read_entries(input, Some(prev), 7, false);
    assert_eq!(first.days(), second.days());
    assert_eq!(first.pool(), second.pool());
}

#[test]
fn existing_output_loads_verbatim() {
    let input = entries(&["Pasta", "Tacos", "Soup", "Salad", "Curry"]);
    let prev = entries(&["Tacos", "Soup"]);
    let engine = Generate::read_entries(input, Some(prev), 7, false);
    assert_eq!(engine.days(), &entries(&["Tacos", "Soup"]));
    assert_eq!(engine.pool(), &entries(&["Pasta", "Salad", "Curry"]));
}

#[test]
fn empty_output_triggers_fresh_draw() {
    let input = entries(&["Pasta", "Tacos", "Soup", "Salad", "Curry"]);
    let engine = Generate::read_entries(input, Some(Vec::new()), 2, false);
    assert_eq!(engine.days().len(), 2);
    assert_eq!(engine.pool().len(), 3);
}

#[test]
fn reset_ignores_previous_selection() {
    let input = entries(&["Pasta", "Tacos", "Soup", "Salad", "Curry"]);
    let prev = entries(&["Tacos", "Soup"]);
    let engine = Generate::read_entries(input.clone(), Some(prev), 3, true);
    assert_eq!(engine.days().len(), 3);
    assert_eq!(engine.pool().len(), 2);
    let mut both = engine.days().clone();
    both.extend(engine.pool().iter().cloned());
    assert_eq!(sorted(&both), sorted(&input));
}

#[test]
fn generate_days_appends_to_selection() {
    let input = entries(&["Pasta", "Tacos", "Soup", "Salad", "Curry"]);
    let prev = entries(&["Tacos", "Soup"]);
    let mut engine = Generate::read_entries(input, Some(prev), 7, false);
    engine.generate_days(2);
    assert_eq!(engine.days().len(), 4);
    assert_eq!(engine.pool().len(), 1);
    assert_eq!(&engine.days()[0], "Tacos");
    assert_eq!(&engine.days()[1], "Soup");
}

#[test]
fn regenerate_preserves_lengths_and_recycles_entry() {
    let input = entries(&["Pasta", "Tacos", "Soup"]);
    let prev = entries(&["Pasta"]);
    let mut engine = Generate::read_entries(input, Some(prev), 7, false);
    assert_eq!(engine.days(), &entries(&["Pasta"]));
    assert_eq!(engine.pool(), &entries(&["Tacos", "Soup"]));
    assert_eq!(engine.regenerate_entry(0), Ok(()));
    assert_eq!(engine.days().len(), 1);
    assert_eq!(engine.pool().len(), 2);
    // the replaced entry went back to the pool, the new one came from it
    assert!(engine.pool().contains(&"Pasta".to_string()));
    let new_day = &engine.days()[0];
    assert!(new_day == "Tacos" || new_day == "Soup");
    assert!(!engine.pool().contains(new_day));
}

#[test]
fn regenerate_rejects_empty_state() {
    let mut empty = Generate::read_entries(Vec::new(), None, 0, false);
    assert_eq!(empty.regenerate_entry(0), Err(EngineError::EmptyState));

    // non-empty selection, empty pool
    let input = entries(&["Pasta", "Tacos"]);
    let mut drained = Generate::read_entries(input, None, 2, false);
    assert_eq!(drained.pool().len(), 0);
    assert_eq!(drained.regenerate_entry(0), Err(EngineError::EmptyState));

    // empty selection, non-empty pool
    let input = entries(&["Pasta", "Tacos"]);
    let mut unfilled = Generate::read_entries(input, None, 0, false);
    assert_eq!(unfilled.days().len(), 0);
    assert_eq!(unfilled.regenerate_entry(0), Err(EngineError::EmptyState));
}

#[test]
fn regenerate_rejects_bad_index() {
    let input = entries(&["Pasta", "Tacos", "Soup"]);
    let prev = entries(&["Pasta"]);
    let mut engine = Generate::read_entries(input, Some(prev), 7, false);
    assert_eq!(engine.regenerate_entry(1), Err(EngineError::InvalidIndex));
    assert_eq!(engine.days(), &entries(&["Pasta"]));
    assert_eq!(engine.pool(), &entries(&["Tacos", "Soup"]));
}

#[test]
fn swap_exchanges_and_is_self_inverse() {
    let input = entries(&["Pasta", "Tacos", "Soup", "Salad"]);
    let prev = entries(&["Pasta", "Tacos", "Soup"]);
    let mut engine = Generate::read_entries(input, Some(prev), 7, false);
    assert_eq!(engine.swap_days_entries(0, 2), Ok(()));
    assert_eq!(engine.days(), &entries(&["Soup", "Tacos", "Pasta"]));
    assert_eq!(engine.swap_days_entries(0, 2), Ok(()));
    assert_eq!(engine.days(), &entries(&["Pasta", "Tacos", "Soup"]));
    // equal indices still succeed and change nothing
    assert_eq!(engine.swap_days_entries(1, 1), Ok(()));
    assert_eq!(engine.days(), &entries(&["Pasta", "Tacos", "Soup"]));
}

#[test]
fn swap_rejects_bad_index() {
    let input = entries(&["Pasta", "Tacos"]);
    let prev = entries(&["Pasta"]);
    let mut engine = Generate::read_entries(input, Some(prev), 7, false);
    assert_eq!(engine.swap_days_entries(0, 1), Err(EngineError::InvalidIndex));
    assert_eq!(engine.swap_days_entries(3, 0), Err(EngineError::InvalidIndex));
    assert_eq!(engine.days(), &entries(&["Pasta"]));
}

#[test]
fn edit_operations_replace_verbatim() {
    let input = entries(&["Pasta", "Tacos", "Soup"]);
    let prev = entries(&["Pasta"]);
    let mut engine = Generate::read_entries(input, Some(prev), 7, false);
    assert_eq!(engine.edit_days_entry(0, "  Stew  ".to_string()), Ok(()));
    assert_eq!(&engine.days()[0], "  Stew  ");
    assert_eq!(engine.edit_pool_entry(1, "Rice".to_string()), Ok(()));
    assert_eq!(engine.pool(), &entries(&["Tacos", "Rice"]));
    assert_eq!(
        engine.edit_days_entry(1, "x".to_string()),
        Err(EngineError::InvalidIndex)
    );
    assert_eq!(
        engine.edit_pool_entry(2, "x".to_string()),
        Err(EngineError::InvalidIndex)
    );
}

#[test]
fn edit_pool_entry_by_strvalue_targets_first_match() {
    let input = entries(&["Pasta", "Tacos", "Pasta"]);
    let mut engine = Generate::read_entries(input, None, 0, false);
    assert_eq!(
        engine.edit_pool_entry_by_strvalue("Pasta", "Rice".to_string()),
        Ok(())
    );
    assert_eq!(engine.pool(), &entries(&["Rice", "Tacos", "Pasta"]));
    assert_eq!(
        engine.edit_pool_entry_by_strvalue("Curry", "x".to_string()),
        Err(EngineError::InvalidIndex)
    );
}

#[test]
fn add_to_pool_appends_and_allows_duplicates() {
    let mut engine = Generate::read_entries(entries(&["Pasta"]), None, 0, false);
    engine.add_to_pool("Tacos".to_string());
    engine.add_to_pool("Tacos".to_string());
    assert_eq!(engine.pool(), &entries(&["Pasta", "Tacos", "Tacos"]));
    assert_eq!(engine.days().len(), 0);
}

#[test]
fn find_entry_reports_first_index() {
    let input = entries(&["Pasta", "Tacos", "Soup", "Tacos"]);
    let prev = entries(&["Soup"]);
    let engine = Generate::read_entries(input, Some(prev), 7, false);
    assert_eq!(engine.find_entry(Collection::Pool, "Tacos"), Some(1));
    assert_eq!(engine.find_entry(Collection::Pool, "Soup"), None);
    assert_eq!(engine.find_entry(Collection::Days, "Soup"), Some(0));
    assert_eq!(engine.find_entry(Collection::Days, "Curry"), None);
    // matching is exact: no trimming, no case folding
    assert_eq!(engine.find_entry(Collection::Pool, "tacos"), None);
    assert_eq!(engine.find_entry(Collection::Pool, " Tacos"), None);
}

#[test]
fn remove_from_pool_hands_back_removed_entry() {
    let mut engine = Generate::read_entries(entries(&["Pasta", "Salad", "Curry"]), None, 0, false);
    let removed = engine.remove_from_pool(1);
    assert_eq!(removed, Ok("Salad".to_string()));
    assert_eq!(engine.pool(), &entries(&["Pasta", "Curry"]));
    assert_eq!(
        engine.remove_from_pool(2),
        Err(EngineError::InvalidIndex)
    );
    assert_eq!(engine.pool(), &entries(&["Pasta", "Curry"]));
}

#[test]
fn remove_from_pool_by_strvalue_removes_first_match() {
    let mut engine = Generate::read_entries(entries(&["Pasta", "Salad", "Salad"]), None, 0, false);
    assert_eq!(
        engine.remove_from_pool_by_strvalue("Salad"),
        Some("Salad".to_string())
    );
    assert_eq!(engine.pool(), &entries(&["Pasta", "Salad"]));
    assert_eq!(engine.remove_from_pool_by_strvalue("Curry"), None);
    assert_eq!(engine.pool(), &entries(&["Pasta", "Salad"]));
}

#[test]
fn removed_entry_never_reloads() {
    let raw_input = entries(&["Pasta", "Salad", "Curry"]);
    let mut engine = Generate::read_entries(active_lines(&raw_input), None, 0, false);
    assert_eq!(engine.pool(), &entries(&["Pasta", "Salad", "Curry"]));
    let removed = engine.remove_from_pool(1).unwrap();
    assert_eq!(removed, "Salad");
    // the caller rewrites the input resource with the entry commented out
    let rewritten = comment_out(&raw_input, &removed);
    assert_eq!(rewritten, entries(&["Pasta", "#Salad", "Curry"]));
    // a fresh load against the rewritten resource, output resource absent
    let reloaded = Generate::read_entries(active_lines(&rewritten), None, 0, false);
    assert!(!reloaded.pool().contains(&"Salad".to_string()));
    assert_eq!(reloaded.pool(), &entries(&["Pasta", "Curry"]));
}

#[test]
fn randomize_days_keeps_the_same_entries() {
    let input = entries(&["Pasta", "Tacos", "Soup", "Salad", "Curry"]);
    let prev = entries(&["Pasta", "Tacos", "Soup"]);
    let mut engine = Generate::read_entries(input, Some(prev), 7, false);
    let before = sorted(engine.days());
    engine.randomize_days();
    assert_eq!(sorted(engine.days()), before);
    assert_eq!(engine.pool(), &entries(&["Salad", "Curry"]));
}

#[test]
fn write_file_yields_selection_verbatim() {
    let input = entries(&["Pasta", "Tacos", "Soup"]);
    let prev = entries(&["Soup", "Pasta"]);
    let engine = Generate::read_entries(input, Some(prev), 7, false);
    assert_eq!(engine.write_file(), entries(&["Soup", "Pasta"]));
}
