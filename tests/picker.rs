use picker::picker::{Action, Key, Picker, Response};
use picker::ranking::{insert_ranked, rank};
use picker::window::{inner_rect, picker_width, preview_first_line, preview_highlight_row, shows_preview, visible_range, window_offset, Rect};

fn files(names: &[&str]) -> Picker<String> {
    let options: Vec<String> = names.iter().map(|s| s.to_string()).collect();
    Picker::new(false, options, |s: &String| s.clone())
}

fn ranked(p: &Picker<String>) -> Vec<(usize, i64)> {
    (0..p.len()).map(|k| p.entry(k)).collect()
}

fn ranked_names(p: &Picker<String>) -> Vec<String> {
    ranked(p).iter().map(|(i, _)| p.candidate(*i).clone()).collect()
}

#[test]
fn query_ap_keeps_apple_and_apricot() {
    let mut p = files(&["apple.txt", "banana.txt", "apricot.txt"]);
    p.set_query("ap".to_string());
    let view = ranked(&p);
    let mut idx: Vec<usize> = view.iter().map(|(i, _)| *i).collect();
    idx.sort();
    assert_eq!(idx, vec![0, 2]);
    assert!(view[0].1 > view[1].1 || (view[0].1 == view[1].1 && view[0].0 < view[1].0));
    assert_eq!(p.cursor(), 0);
}

#[test]
fn saved_scope_intersects_later_query() {
    let mut p = files(&["apple.txt", "banana.txt", "apricot.txt"]);
    p.set_query("ap".to_string());
    p.save_filter();
    assert_eq!(p.query(), "");
    let mut names = ranked_names(&p);
    names.sort();
    assert_eq!(names, vec!["apple.txt".to_string(), "apricot.txt".to_string()]);
    p.set_query("pric".to_string());
    assert_eq!(ranked_names(&p), vec!["apricot.txt".to_string()]);
}

#[test]
fn saved_scope_excludes_earlier_matches_under_any_query() {
    let mut p = files(&["apple.txt", "banana.txt", "apricot.txt"]);
    p.set_query("ap".to_string());
    p.save_filter();
    for q in ["", "a", "b", "ban", "txt"] {
        p.set_query(q.to_string());
        for (i, _) in ranked(&p) {
            assert_ne!(i, 1);
        }
    }
}

#[test]
fn save_replaces_earlier_scope() {
    let mut p = files(&["apple.txt", "banana.txt", "apricot.txt"]);
    p.set_query("ap".to_string());
    p.save_filter();
    p.set_query("apple".to_string());
    p.save_filter();
    p.set_query("".to_string());
    assert_eq!(ranked_names(&p), vec!["apple.txt".to_string()]);
}

#[test]
fn empty_scope_stays_empty() {
    let mut p = files(&["apple.txt", "banana.txt"]);
    p.set_query("zzz".to_string());
    assert_eq!(p.len(), 0);
    p.save_filter();
    assert_eq!(p.len(), 0);
    p.set_query("a".to_string());
    assert_eq!(p.len(), 0);
}

#[test]
fn window_page_of_cursor_seven() {
    assert_eq!(window_offset(7, 5), 5);
    assert_eq!(visible_range(7, 5, 20), (5, 10));
}

#[test]
fn window_offsets_are_page_starts() {
    for rows in 1..7usize {
        for cursor in 0..30usize {
            let off = window_offset(cursor, rows);
            assert_eq!(off % rows, 0);
            assert!(off <= cursor && cursor < off + rows);
        }
    }
    assert_eq!(visible_range(12, 5, 13), (10, 13));
    assert_eq!(visible_range(0, 5, 0), (0, 0));
}

#[test]
fn picker_window_follows_cursor() {
    let names: Vec<String> = (0..12).map(|i| format!("file{}.rs", i)).collect();
    let refs: Vec<&str> = names.iter().map(|s| s.as_str()).collect();
    let mut p = files(&refs);
    assert_eq!(p.len(), 12);
    for _ in 0..7 {
        p.move_down();
    }
    assert_eq!(p.cursor(), 7);
    assert_eq!(p.visible(5), (5, 10));
    for _ in 0..10 {
        p.move_down();
    }
    assert_eq!(p.visible(5), (10, 12));
}

#[test]
fn cursor_stops_at_both_ends() {
    let mut p = files(&["a", "b", "c"]);
    p.move_up();
    assert_eq!(p.cursor(), 0);
    p.move_down();
    p.move_down();
    assert_eq!(p.cursor(), 2);
    p.move_down();
    assert_eq!(p.cursor(), 2);
    p.move_up();
    assert_eq!(p.cursor(), 1);
}

#[test]
fn cursor_on_empty_view_stays_at_zero() {
    let mut p = files(&["a", "b"]);
    p.set_query("zz".to_string());
    p.move_down();
    assert_eq!(p.cursor(), 0);
    p.move_up();
    assert_eq!(p.cursor(), 0);
    assert_eq!(p.selection(), None);
    assert_eq!(p.selected_index(), None);
}

#[test]
fn empty_query_keeps_candidate_order_with_zero_scores() {
    let p = files(&["zeta", "alpha", "mid"]);
    assert_eq!(ranked(&p), vec![(0, 0), (1, 0), (2, 0)]);
    assert_eq!(p.selection(), Some(&"zeta".to_string()));
}

#[test]
fn equal_scores_keep_candidate_order() {
    let mut p = files(&["src/a.rs", "x", "src/a.rs", "src/a.rs"]);
    p.set_query("a.rs".to_string());
    let view = ranked(&p);
    assert_eq!(view.len(), 3);
    let idx: Vec<usize> = view.iter().map(|(i, _)| *i).collect();
    assert_eq!(idx, vec![0, 2, 3]);
    assert!(view[0].1 == view[1].1 && view[1].1 == view[2].1);
}

#[test]
fn ranked_view_is_sorted_and_has_no_duplicates() {
    let mut p = files(&["main.rs", "lib.rs", "mod.rs", "m.rs", "amazing.rs", "README.md"]);
    for q in ["m", "rs", "ma", "r", ""] {
        p.set_query(q.to_string());
        let view = ranked(&p);
        for a in 0..view.len() {
            for b in a + 1..view.len() {
                assert_ne!(view[a].0, view[b].0);
                assert!(view[a].1 > view[b].1 || (view[a].1 == view[b].1 && view[a].0 < view[b].0));
            }
        }
    }
}

#[test]
fn same_query_keeps_cursor() {
    let mut p = files(&["ab", "abc", "abd"]);
    p.set_query("ab".to_string());
    p.move_down();
    assert_eq!(p.cursor(), 1);
    p.set_query("ab".to_string());
    assert_eq!(p.cursor(), 1);
    p.set_query("abc".to_string());
    assert_eq!(p.cursor(), 0);
}

#[test]
fn keys_decide_responses() {
    let mut p = files(&["one", "two", "three"]);
    assert_eq!(p.handle_key(Key::Down), Response::Consumed);
    assert_eq!(p.cursor(), 1);
    assert_eq!(p.handle_key(Key::Up), Response::Consumed);
    assert_eq!(p.cursor(), 0);
    assert_eq!(p.handle_key(Key::Down), Response::Consumed);
    let selected = p.selected_index().unwrap();
    assert_eq!(
        p.handle_key(Key::Confirm(Action::VerticalSplit)),
        Response::Dispatch { index: selected, action: Action::VerticalSplit }
    );
    assert_eq!(p.handle_key(Key::Cancel), Response::Close);
    assert_eq!(p.handle_key(Key::Other), Response::Forward);
}

#[test]
fn confirm_without_selection_closes() {
    let mut p = files(&["one", "two"]);
    p.set_query("qqq".to_string());
    assert_eq!(p.handle_key(Key::Confirm(Action::Replace)), Response::Close);
}

#[test]
fn save_scope_key_saves_and_clears_query() {
    let mut p = files(&["apple.txt", "banana.txt", "apricot.txt"]);
    p.set_query("ban".to_string());
    assert_eq!(p.handle_key(Key::SaveScope), Response::Consumed);
    assert_eq!(p.query(), "");
    assert_eq!(ranked_names(&p), vec!["banana.txt".to_string()]);
}

#[test]
fn format_fn_gives_display_text() {
    let options = vec![(1u32, "alpha"), (2u32, "beta")];
    let mut p = Picker::new(true, options, |o: &(u32, &str)| o.1.to_string());
    assert!(p.render_centered());
    p.set_query("bet".to_string());
    assert_eq!(p.selection(), Some(&(2u32, "beta")));
}

#[test]
fn insert_ranked_places_entries() {
    let mut v: Vec<(usize, i64)> = Vec::new();
    assert_eq!(insert_ranked(&mut v, (0, 5)), 0);
    assert_eq!(insert_ranked(&mut v, (1, 9)), 0);
    assert_eq!(insert_ranked(&mut v, (2, 5)), 2);
    assert_eq!(insert_ranked(&mut v, (3, 1)), 3);
    assert_eq!(v, vec![(1, 9), (0, 5), (2, 5), (3, 1)]);
}

#[test]
fn inner_rect_pads_a_tenth() {
    let r = inner_rect(Rect { x: 0, y: 0, width: 100, height: 50 });
    assert_eq!(r, Rect { x: 10, y: 5, width: 80, height: 40 });
    let r = inner_rect(Rect { x: 3, y: 4, width: 9, height: 19 });
    assert_eq!(r, Rect { x: 3, y: 5, width: 9, height: 17 });
    assert!(shows_preview(81));
    assert!(!shows_preview(80));
}

#[test]
fn rank_orders_given_scores() {
    assert_eq!(rank(&vec![Some(5), None, Some(9), Some(5), Some(-2)]), vec![(2, 9), (0, 5), (3, 5), (4, -2)]);
    assert_eq!(rank(&vec![None, None]), vec![]);
    assert_eq!(rank(&vec![]), vec![]);
    assert_eq!(rank(&vec![Some(i64::MIN), Some(i64::MAX)]), vec![(1, i64::MAX), (0, i64::MIN)]);
}

#[test]
fn picker_width_halves_beside_preview() {
    assert_eq!(picker_width(101, true), 50);
    assert_eq!(picker_width(101, false), 101);
    assert_eq!(picker_width(0, true), 0);
}

#[test]
fn matching_ignores_case_unless_query_has_capital() {
    let mut p = files(&["apple.txt", "APPLE.TXT", "Apple.txt", "elppa"]);
    p.set_query("apl".to_string());
    let mut idx: Vec<usize> = ranked(&p).iter().map(|(i, _)| *i).collect();
    idx.sort();
    assert_eq!(idx, vec![0, 1, 2]);
    p.set_query("Apl".to_string());
    assert_eq!(ranked_names(&p), vec!["Apple.txt".to_string()]);
    p.set_query("pa".to_string());
    let mut idx: Vec<usize> = ranked(&p).iter().map(|(i, _)| *i).collect();
    idx.sort();
    assert_eq!(idx, vec![3]);
}

#[test]
fn preview_centres_target_line() {
    assert_eq!(preview_first_line(Some(40), 20), 30);
    assert_eq!(preview_first_line(Some(5), 20), 0);
    assert_eq!(preview_first_line(None, 20), 0);
    assert_eq!(preview_first_line(Some(7), 1), 7);
    assert_eq!(preview_highlight_row(40, 30), 10);
    assert_eq!(preview_highlight_row(5, 0), 5);
}

#[test]
fn scores_do_not_depend_on_earlier_queries() {
    let mut alone = files(&["aaa"]);
    alone.set_query("aaa".to_string());
    let fresh = alone.entry(0);
    let mut p = files(&["/abc", "aaa"]);
    p.set_query("a".to_string());
    p.set_query("aaa".to_string());
    assert_eq!(ranked(&p), vec![(1, fresh.1)]);
    p.set_query("a".to_string());
    p.set_query("aaa".to_string());
    assert_eq!(ranked(&p), vec![(1, fresh.1)]);
}
