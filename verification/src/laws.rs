//! Properties of the browser that span several operations.
use vstd::prelude::*;
use crate::app::{AppView, KeyCode, KeyEvent, KeyEventKind, Mode, Part, handle_key_spec,
    highlight_down_spec, highlight_right_spec,
    update_value_spec, value_key, filter_keys, UiValueView, longest_key, scroll_limit,
    keys_matches_text, fields_matches_text, clamp};
use crate::list_state::{next_index, previous_index};
use crate::text::{contains, char_window, occurs_at, byte_len, decimal};
use crate::redis_client::{PairView, insert_all};

verus! {

/// Every key event keeps the state consistent: afterwards the filtered keys are
/// still exactly the keys that contain the input, and the split of the width stays
/// between 10 and 89 percent.
pub proof fn law_key_events_keep_invariant(v: AppView, key: KeyEvent)
    requires
        v.inv(),
    ensures
        handle_key_spec(v, key).0.inv(),
{
}

/// A key that is not pressed (a repeat or a release) changes nothing.
pub proof fn law_only_presses_count(v: AppView, key: KeyEvent)
    requires
        key.kind != KeyEventKind::Press,
    ensures
        handle_key_spec(v, key) == (v, None::<Seq<char>>),
{
}

/// Enter focuses the highlighted part and Esc then highlights it again: the state
/// is as before.
pub proof fn law_enter_then_esc(v: AppView, p: Part)
    requires
        v.mode == Mode::SelectingParts(p),
    ensures
        ({
            let enter = KeyEvent { code: KeyCode::Enter, kind: KeyEventKind::Press };
            let esc = KeyEvent { code: KeyCode::Esc, kind: KeyEventKind::Press };
            let (v1, f1) = handle_key_spec(v, enter);
            let (v2, f2) = handle_key_spec(v1, esc);
            &&& v1.mode == Mode::FocusedOnPart(p)
            &&& v2 == v
            &&& f1 is None && f2 is None
        }),
{
    assert(v.with_mode(Mode::FocusedOnPart(p)).with_mode(Mode::SelectingParts(p)) == v);
}

/// A pressed key.
pub open spec fn pressed(code: KeyCode) -> KeyEvent {
    KeyEvent { code, kind: KeyEventKind::Press }
}

/// The outcome of two key events, one after the other.
pub open spec fn two_keys(v: AppView, first: KeyEvent, second: KeyEvent) -> (AppView, Option<Seq<char>>) {
    handle_key_spec(handle_key_spec(v, first).0, second)
}

/// Moving the highlight down from the input and back up gives back the same state;
/// so does moving it right from the keys and back left.
pub proof fn law_highlight_moves_undo(v: AppView)
    ensures
        v.mode == Mode::SelectingParts(Part::KeyInput) ==> two_keys(v, pressed(KeyCode::Down), pressed(KeyCode::Up))
            == (v, None::<Seq<char>>),
        v.mode == Mode::SelectingParts(Part::KeyInput) ==> two_keys(v, pressed(KeyCode::Char('j')), pressed(KeyCode::Char('k')))
            == (v, None::<Seq<char>>),
        v.mode == Mode::SelectingParts(Part::RedisKeys) ==> two_keys(v, pressed(KeyCode::Right), pressed(KeyCode::Left))
            == (v, None::<Seq<char>>),
        v.mode == Mode::SelectingParts(Part::RedisKeys) ==> two_keys(v, pressed(KeyCode::Char('l')), pressed(KeyCode::Char('h')))
            == (v, None::<Seq<char>>),
{
    if v.mode == Mode::SelectingParts(Part::KeyInput) {
        assert(highlight_down_spec(v).with_mode(Mode::SelectingParts(Part::KeyInput)) == v);
    }
    if v.mode == Mode::SelectingParts(Part::RedisKeys) {
        assert(highlight_right_spec(v).with_mode(Mode::SelectingParts(Part::RedisKeys)) == v);
    }
}

/// Typing a character into the focused input and deleting it again with Backspace
/// restores the input, the filtered keys, the selection and the mode, and asks for
/// the same value as the state before typing stands for.
pub proof fn law_type_then_delete(v: AppView, c: char)
    requires
        v.inv(),
        v.mode == Mode::FocusedOnPart(Part::KeyInput),
    ensures
        ({
            let (v2, f2) = two_keys(v, pressed(KeyCode::Char(c)), pressed(KeyCode::Backspace));
            &&& v2.key_input == v.key_input
            &&& v2.filtered == v.filtered
            &&& v2.selected == v.selected
            &&& v2.mode == v.mode
            &&& f2 == update_value_spec(v).1
        }),
{
    assert(v.key_input.push(c).drop_last() =~= v.key_input);
}

/// Typing a character into the focused input only narrows the filtered keys: the new
/// ones are the old ones that also contain the longer input, so none is added.
pub proof fn law_typing_narrows(v: AppView, c: char)
    requires
        v.inv(),
        v.mode == Mode::FocusedOnPart(Part::KeyInput),
    ensures
        ({
            let (v1, _) = handle_key_spec(v, pressed(KeyCode::Char(c)));
            &&& v1.key_input == v.key_input.push(c)
            &&& v1.filtered == filter_keys(v.filtered, v1.key_input)
            &&& forall|k: Seq<char>| v1.filtered.contains(k) ==> v.filtered.contains(k)
        }),
{
    let input = v.key_input;
    let longer = input.push(c);
    assert forall|k: Seq<char>| contains(k, longer) implies contains(k, input) by {
        let i = choose|i: int| occurs_at(k, longer, i);
        assert(k.subrange(i, i + input.len()) =~= k.subrange(i, i + longer.len()).subrange(0, input.len() as int));
        assert(longer.subrange(0, input.len() as int) =~= input);
        assert(occurs_at(k, input, i));
    }
    lemma_filter_twice(v.keys, input, longer);
    let (v1, _) = handle_key_spec(v, pressed(KeyCode::Char(c)));
    assert forall|k: Seq<char>| v1.filtered.contains(k) implies v.filtered.contains(k) by {
        v.filtered.lemma_filter_contains_rev(|x: Seq<char>| contains(x, longer), k);
    }
}

/// Filtering by a longer input after a shorter one is filtering by the longer one,
/// when every key that contains the longer input contains the shorter one.
proof fn lemma_filter_twice(keys: Seq<Seq<char>>, short: Seq<char>, long: Seq<char>)
    requires
        forall|k: Seq<char>| contains(k, long) ==> contains(k, short),
    ensures
        filter_keys(filter_keys(keys, short), long) == filter_keys(keys, long),
    decreases keys.len(),
{
    reveal(Seq::filter);
    if keys.len() > 0 {
        lemma_filter_twice(keys.drop_last(), short, long);
        let p = |k: Seq<char>| contains(k, short);
        let q = |k: Seq<char>| contains(k, long);
        let fs = keys.drop_last().filter(p);
        if p(keys.last()) {
            assert(fs.push(keys.last()).drop_last() =~= fs);
        }
    }
}

/// Narrowing and then widening the list of keys (`H` then `L`), or the other way
/// round, gives back the same state, unless the split is at the bound it was moved
/// towards.
pub proof fn law_resize_undo(v: AppView)
    requires
        v.inv(),
        v.mode is SelectingParts,
    ensures
        v.percent > 10 ==> two_keys(v, pressed(KeyCode::Char('H')), pressed(KeyCode::Char('L')))
            == (v, None::<Seq<char>>),
        v.percent < 89 ==> two_keys(v, pressed(KeyCode::Char('L')), pressed(KeyCode::Char('H')))
            == (v, None::<Seq<char>>),
{
}

/// The key whose value an operation asks for is a key that contains the input,
/// among all keys.
pub proof fn law_fetched_key_matches_input(v: AppView, key: KeyEvent)
    requires
        v.inv(),
    ensures
        ({
            let (v1, fetch) = handle_key_spec(v, key);
            fetch matches Some(k) ==> contains(k, v1.key_input) && v1.keys.contains(k)
                && v1.filtered.contains(k)
        }),
{
    let (v1, fetch) = handle_key_spec(v, key);
    law_key_events_keep_invariant(v, key);
    if let Some(k) = fetch {
        assert(value_key(v1) == Some(k)) by {
            reveal(Seq::filter);
        }
        let i = crate::app::clamp(v1.selected.unwrap() as int, 0, v1.filtered.len() - 1);
        assert(v1.filtered[i] == k);
        v1.keys.lemma_filter_pred(|k: Seq<char>| contains(k, v1.key_input), i);
        assert(v1.filtered.contains(k));
        v1.keys.lemma_filter_contains_rev(|k: Seq<char>| contains(k, v1.key_input), k);
    }
}

/// Moving the selection down and then up returns to the same index, below the
/// largest index.
pub proof fn law_select_next_then_previous(i: usize)
    requires
        i < usize::MAX,
    ensures
        previous_index(Some(next_index(Some(i)))) == i,
{
}

/// Two adjacent windows of a string make up the window that spans both.
pub proof fn law_windows_concatenate(s: Seq<char>, start: nat, w1: nat, w2: nat)
    ensures
        char_window(s, start, w1) + char_window(s, start + w1, w2) == char_window(s, start, w1 + w2),
{
    assert(char_window(s, start, w1) + char_window(s, start + w1, w2) =~= char_window(s, start, w1 + w2));
}

/// A window is never wider than asked for.
pub proof fn law_window_width(s: Seq<char>, start: nat, width: nat)
    ensures
        char_window(s, start, width).len() <= width,
{
}

/// The filtered keys are exactly the keys that contain the input: each of them
/// contains it and is one of the keys, and no key that contains it is left out.
pub proof fn law_filter_is_exact(v: AppView)
    requires
        v.inv(),
    ensures
        forall|i: int| 0 <= i < v.filtered.len() ==> contains(#[trigger] v.filtered[i], v.key_input)
            && v.keys.contains(v.filtered[i]),
        forall|i: int| 0 <= i < v.keys.len() && contains(#[trigger] v.keys[i], v.key_input)
            ==> v.filtered.contains(v.keys[i]),
{
    let p = |k: Seq<char>| contains(k, v.key_input);
    assert forall|i: int| 0 <= i < v.filtered.len() implies contains(#[trigger] v.filtered[i], v.key_input)
        && v.keys.contains(v.filtered[i]) by {
        v.keys.lemma_filter_pred(p, i);
        assert(v.keys.filter(p).contains(v.filtered[i]));
        v.keys.lemma_filter_contains_rev(p, v.filtered[i]);
    }
    assert forall|i: int| 0 <= i < v.keys.len() && contains(#[trigger] v.keys[i], v.key_input)
        implies v.filtered.contains(v.keys[i]) by {
        v.keys.lemma_filter_contains(p, i);
    }
}

/// Collecting field/value pairs into a hash keeps every field name that occurs and
/// no other, and gives each field the value of its last occurrence.
pub proof fn law_collected_fields(s: Seq<PairView>, k: Seq<char>)
    ensures
        insert_all(s).contains_key(k) <==> exists|i: int| 0 <= i < s.len() && #[trigger] s[i].0 == k,
        forall|i: int| 0 <= i < s.len() && #[trigger] s[i].0 == k
            && (forall|j: int| i < j < s.len() ==> #[trigger] s[j].0 != k) ==> insert_all(s)[k] == s[i].1,
    decreases s.len(),
{
    if s.len() > 0 {
        let t = s.drop_last();
        law_collected_fields(t, k);
        if s.last().0 != k {
            if insert_all(s).contains_key(k) {
                let i = choose|i: int| 0 <= i < t.len() && #[trigger] t[i].0 == k;
                assert(s[i].0 == k);
            }
            assert forall|i: int| 0 <= i < s.len() && #[trigger] s[i].0 == k implies 0 <= i < t.len()
                && t[i].0 == k by {
            }
        } else {
            assert(s[s.len() - 1].0 == k);
        }
    }
}


// ---------------------------------------------------------------------------
// Moving the highlight
// ---------------------------------------------------------------------------

/// The input is above the two other parts, and the list of keys is left of the value.
/// Down (or `j`) moves the highlight only from the input, to the keys; Up (or `k`)
/// only from the keys or the value, to the input; Right (or `l`) only from the keys,
/// to the value; Left (or `h`) only from the value, to the keys. Every other mode is
/// left as it is by these keys, and a move changes nothing but the mode.
pub proof fn law_highlight_layout(v: AppView)
    ensures
        v.mode == Mode::SelectingParts(Part::KeyInput) ==> handle_key_spec(v, pressed(KeyCode::Down))
            == (v.with_mode(Mode::SelectingParts(Part::RedisKeys)), None::<Seq<char>>),
        v.mode != Mode::SelectingParts(Part::KeyInput) ==> handle_key_spec(v, pressed(KeyCode::Down)).0.mode
            == v.mode,
        v.mode != Mode::SelectingParts(Part::KeyInput) ==> handle_key_spec(v, pressed(KeyCode::Char('j'))).0.mode
            == v.mode,
        (v.mode == Mode::SelectingParts(Part::RedisKeys) || v.mode == Mode::SelectingParts(Part::RedisValue))
            ==> handle_key_spec(v, pressed(KeyCode::Up)) == (v.with_mode(Mode::SelectingParts(Part::KeyInput)), None::<Seq<char>>),
        !(v.mode == Mode::SelectingParts(Part::RedisKeys) || v.mode == Mode::SelectingParts(Part::RedisValue))
            ==> handle_key_spec(v, pressed(KeyCode::Up)).0.mode == v.mode,
        !(v.mode == Mode::SelectingParts(Part::RedisKeys) || v.mode == Mode::SelectingParts(Part::RedisValue))
            ==> handle_key_spec(v, pressed(KeyCode::Char('k'))).0.mode == v.mode,
        v.mode == Mode::SelectingParts(Part::RedisKeys) ==> handle_key_spec(v, pressed(KeyCode::Right))
            == (v.with_mode(Mode::SelectingParts(Part::RedisValue)), None::<Seq<char>>),
        v.mode != Mode::SelectingParts(Part::RedisKeys) ==> handle_key_spec(v, pressed(KeyCode::Right)).0.mode
            == v.mode,
        v.mode != Mode::SelectingParts(Part::RedisKeys) ==> handle_key_spec(v, pressed(KeyCode::Char('l'))).0.mode
            == v.mode,
        v.mode == Mode::SelectingParts(Part::RedisValue) ==> handle_key_spec(v, pressed(KeyCode::Left))
            == (v.with_mode(Mode::SelectingParts(Part::RedisKeys)), None::<Seq<char>>),
        v.mode != Mode::SelectingParts(Part::RedisValue) ==> handle_key_spec(v, pressed(KeyCode::Left)).0.mode
            == v.mode,
        v.mode != Mode::SelectingParts(Part::RedisValue) ==> handle_key_spec(v, pressed(KeyCode::Char('h'))).0.mode
            == v.mode,
{
}

// ---------------------------------------------------------------------------
// Selecting keys and fields
// ---------------------------------------------------------------------------

/// Pressing `code` selects the key at `index` in the list of matching keys (an index
/// past the end standing for the last), changes neither the keys, the input, the
/// matches nor the mode, and asks for the value of the key so selected, if any key
/// matches.
pub open spec fn selects_key(v: AppView, code: KeyCode, index: usize) -> bool {
    let (v1, fetch) = handle_key_spec(v, pressed(code));
    let n = v.filtered.len();
    &&& v1.selected == Some(index)
    &&& v1.keys == v.keys
    &&& v1.filtered == v.filtered
    &&& v1.key_input == v.key_input
    &&& v1.mode == v.mode
    &&& fetch == (if n == 0 {
        None
    } else if index < n {
        Some(v.filtered[index as int])
    } else {
        Some(v.filtered[n - 1])
    })
}

/// In the focused list of keys, `g` and Home select the first key and `G` and End
/// the last; `j` and Down move the selection one key on (to the first when nothing
/// is selected), and `k` and Up one key back (to the last when nothing is selected).
/// Each asks for the value of the key it selects.
pub proof fn law_key_list_selection(v: AppView)
    requires
        v.mode == Mode::FocusedOnPart(Part::RedisKeys),
    ensures
        selects_key(v, KeyCode::Char('g'), 0),
        selects_key(v, KeyCode::Home, 0),
        selects_key(v, KeyCode::Char('G'), usize::MAX),
        selects_key(v, KeyCode::End, usize::MAX),
        v.selected is None ==> selects_key(v, KeyCode::Char('j'), 0) && selects_key(v, KeyCode::Down, 0),
        v.selected is None ==> selects_key(v, KeyCode::Char('k'), usize::MAX) && selects_key(v, KeyCode::Up, usize::MAX),
        forall|i: usize| v.selected == Some(i) && i < usize::MAX ==> selects_key(v, KeyCode::Char('j'), (i + 1) as usize)
            && selects_key(v, KeyCode::Down, (i + 1) as usize),
        forall|i: usize| v.selected == Some(i) && 0 < i ==> selects_key(v, KeyCode::Char('k'), (i - 1) as usize)
            && selects_key(v, KeyCode::Up, (i - 1) as usize),
        v.selected == Some(0usize) ==> selects_key(v, KeyCode::Char('k'), 0) && selects_key(v, KeyCode::Up, 0),
{
}

/// Pressing `code` selects the field at `index` of the hash on screen, keeping its
/// fields, changing nothing else and asking for no value; without a hash on screen
/// it changes nothing.
pub open spec fn selects_field(v: AppView, code: KeyCode, index: usize) -> bool {
    let (v1, fetch) = handle_key_spec(v, pressed(code));
    &&& fetch is None
    &&& match v.value {
        Some(UiValueView::List(items, _)) => v1 == AppView {
            value: Some(UiValueView::List(items, Some(index))),
            ..v
        },
        _ => v1 == v,
    }
}

/// In the focused value, `g` and Home select the first field whatever was selected,
/// `G` and End the last, `j` and Down the next (the first when none is), and `k` and
/// Up the previous (staying at the first).
pub proof fn law_field_selection(v: AppView)
    requires
        v.mode == Mode::FocusedOnPart(Part::RedisValue),
    ensures
        selects_field(v, KeyCode::Char('g'), 0),
        selects_field(v, KeyCode::Home, 0),
        selects_field(v, KeyCode::Char('G'), usize::MAX),
        selects_field(v, KeyCode::End, usize::MAX),
        forall|items: Seq<PairView>| v.value == Some(UiValueView::List(items, None)) ==> selects_field(
            v,
            KeyCode::Char('j'),
            0,
        ) && selects_field(v, KeyCode::Down, 0),
        forall|items: Seq<PairView>, i: usize|
            v.value == Some(UiValueView::List(items, Some(i))) && i < usize::MAX ==> selects_field(
                v,
                KeyCode::Char('j'),
                (i + 1) as usize,
            ) && selects_field(v, KeyCode::Down, (i + 1) as usize),
        forall|items: Seq<PairView>, i: usize|
            v.value == Some(UiValueView::List(items, Some(i))) && 0 < i ==> selects_field(
                v,
                KeyCode::Char('k'),
                (i - 1) as usize,
            ) && selects_field(v, KeyCode::Up, (i - 1) as usize),
        forall|items: Seq<PairView>| v.value == Some(UiValueView::List(items, Some(0usize))) ==> selects_field(
            v,
            KeyCode::Char('k'),
            0,
        ) && selects_field(v, KeyCode::Up, 0),
{
}

// ---------------------------------------------------------------------------
// What the list of keys shows
// ---------------------------------------------------------------------------

/// The widest of the keys is at least as wide as each of them, and is the width of
/// one of them (or 0 when there are none).
pub proof fn law_longest_key(keys: Seq<Seq<char>>)
    ensures
        forall|i: int| 0 <= i < keys.len() ==> byte_len(#[trigger] keys[i]) <= longest_key(keys),
        longest_key(keys) == 0 || exists|i: int| 0 <= i < keys.len() && longest_key(keys) == byte_len(#[trigger] keys[i]),
    decreases keys.len(),
{
    if keys.len() > 0 {
        let t = keys.drop_last();
        law_longest_key(t);
        assert forall|i: int| 0 <= i < keys.len() implies byte_len(#[trigger] keys[i]) <= longest_key(keys) by {
            if i < keys.len() - 1 {
                assert(keys[i] == t[i]);
            }
        }
        if longest_key(keys) != 0 {
            if longest_key(keys) == byte_len(keys.last()) {
                assert(keys[keys.len() - 1] == keys.last());
            } else {
                let i = choose|i: int| 0 <= i < t.len() && longest_key(t) == byte_len(#[trigger] t[i]);
                assert(keys[i] == t[i]);
            }
        }
    }
}

/// The keys can be scrolled just far enough for the end of the widest matching key
/// to come into view: every matching key fits within the scroll limit plus the room
/// for keys, and unless the limit is 0 one of them fills it exactly.
pub proof fn law_scroll_limit(v: AppView, width: usize)
    requires
        width >= 5,
    ensures
        forall|i: int| 0 <= i < v.filtered.len() ==> byte_len(#[trigger] v.filtered[i]) <= scroll_limit(v, width) + (
        width - 5),
        scroll_limit(v, width) == 0 || exists|i: int| 0 <= i < v.filtered.len() && scroll_limit(v, width) + (width - 5)
            == byte_len(#[trigger] v.filtered[i]),
{
    law_longest_key(v.filtered);
}

/// The suffix of the line under the list of keys: the number of all keys, when some
/// do not match.
pub open spec fn total_suffix(v: AppView) -> Seq<char> {
    if v.filtered.len() == v.keys.len() {
        Seq::empty()
    } else {
        " (total "@ + decimal(v.keys.len()) + ")"@
    }
}

/// The line under the list of keys gives the position of the key whose value is
/// shown, counting from 1, among the matching keys, and their number (and the number
/// of all keys when some do not match); without matches it says so.
pub proof fn law_keys_position(v: AppView)
    requires
        v.selected is Some,
    ensures
        v.filtered.len() == 0 ==> keys_matches_text(v) == "No matches"@,
        v.filtered.len() > 0 ==> exists|c: nat|
            1 <= c <= v.filtered.len() && value_key(v) == Some(#[trigger] v.filtered[c - 1])
                && keys_matches_text(v) == decimal(c) + "/"@ + decimal(v.filtered.len()) + total_suffix(v),
{
    let n = v.filtered.len();
    if n > 0 {
        let c = (clamp(v.selected.unwrap() as int, 0, n - 1) + 1) as nat;
        assert(value_key(v) == Some(v.filtered[c - 1]));
        if n == v.keys.len() {
            assert(decimal(c) + "/"@ + decimal(n) + total_suffix(v) =~= decimal(c) + "/"@ + decimal(n));
        }
        assert(keys_matches_text(v) == decimal(c) + "/"@ + decimal(n) + total_suffix(v));
    }
}

/// The line under the fields of a hash gives the position of the selected field,
/// counting from 1 (a selection past the end standing for the last, and none for the
/// first), and the number of fields; without fields it says so.
pub proof fn law_fields_position(n: nat, selected: Option<usize>)
    ensures
        n == 0 ==> fields_matches_text(n, selected) == "No fields"@,
        n > 0 ==> exists|c: nat|
            1 <= c <= n && #[trigger] fields_matches_text(n, selected) == decimal(c) + "/"@ + decimal(n)
                && (selected is None ==> c == 1)
                && (forall|i: usize| selected == Some(i) && i < n ==> c == i + 1)
                && (forall|i: usize| selected == Some(i) && i >= n ==> c == n),
{
    if n > 0 {
        let sel: int = match selected {
            Some(i) => i as int,
            None => 0,
        };
        let c = (clamp(sel, 0, n - 1) + 1) as nat;
        assert(fields_matches_text(n, selected) == decimal(c) + "/"@ + decimal(n));
    }
}

} // verus!
