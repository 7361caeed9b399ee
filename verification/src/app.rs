//! The state of the browser and how it answers keys.
//!
//! The screen has three parts: the key filter input, the list of Redis keys that
//! contain the input, and the value of the selected key. One part is highlighted,
//! or one part is focused and takes the keys. Fetching a value from the server is
//! left to the caller: an operation that needs a value names the key to fetch, and
//! the caller hands the value back with `show_redis_value`.
use vstd::prelude::*;
use crate::list_state::{ListSelection, next_index, previous_index};
use crate::redis_client::{RedisValue, PairView, pairs_view, field_line};
use crate::text::{contains, decimal, byte_len, char_window, owned, push_str, push_decimal,
    str_contains, horizontal_slice, byte_length, string_push, string_pop};

verus! {

// ---------------------------------------------------------------------------
// Parts, modes and keys
// ---------------------------------------------------------------------------

/// A part of the screen.
#[derive(Clone, Copy, PartialEq, Eq, Structural, Debug)]
pub enum Part {
    KeyInput,
    RedisKeys,
    RedisValue,
}

/// Which part is highlighted, or which part is focused.
#[derive(Clone, Copy, PartialEq, Eq, Structural, Debug)]
pub enum Mode {
    SelectingParts(Part),
    FocusedOnPart(Part),
}

/// A key of the keyboard, as far as the browser tells keys apart.
#[derive(Clone, Copy, PartialEq, Eq, Structural, Debug)]
pub enum KeyCode {
    Backspace,
    Enter,
    Left,
    Right,
    Up,
    Down,
    Home,
    End,
    Esc,
    Char(char),
    Other,
}

/// Whether a key went down, repeats or went up.
#[derive(Clone, Copy, PartialEq, Eq, Structural, Debug)]
pub enum KeyEventKind {
    Press,
    Repeat,
    Release,
}

/// A key event.
#[derive(Clone, Copy, PartialEq, Eq, Structural, Debug)]
pub struct KeyEvent {
    pub code: KeyCode,
    pub kind: KeyEventKind,
}

// ---------------------------------------------------------------------------
// Keys and values
// ---------------------------------------------------------------------------

/// A Redis key in the list of keys.
pub struct RedisKeysItem {
    redis_key: String,
}

impl View for RedisKeysItem {
    type V = Seq<char>;

    closed spec fn view(&self) -> Seq<char> {
        self.redis_key@
    }
}

impl RedisKeysItem {
    /// The item for `redis_key`.
    pub fn new(redis_key: String) -> (r: Self)
        ensures
            r@ == redis_key@,
    {
        Self { redis_key }
    }

    /// The key.
    pub fn redis_key(&self) -> (r: &String)
        ensures
            r@ == self@,
    {
        &self.redis_key
    }
}

/// The keys that a sequence of items holds.
pub open spec fn keys_of(items: Seq<RedisKeysItem>) -> Seq<Seq<char>> {
    items.map_values(|it: RedisKeysItem| it@)
}

/// The character views of a sequence of strings.
pub open spec fn strings_view(s: Seq<String>) -> Seq<Seq<char>> {
    s.map_values(|x: String| x@)
}

/// The keys that contain `input`, in their order.
pub open spec fn filter_keys(keys: Seq<Seq<char>>, input: Seq<char>) -> Seq<Seq<char>> {
    keys.filter(|k: Seq<char>| contains(k, input))
}

/// All keys, and the selection in their list.
struct RedisKeysList {
    items: Vec<RedisKeysItem>,
    state: ListSelection,
}

impl RedisKeysList {
    /// One item per key, in order, with nothing selected.
    fn from_keys(redis_keys: Vec<String>) -> (r: RedisKeysList)
        ensures
            keys_of(r.items@) == strings_view(redis_keys@),
            r.state@ == None::<usize>,
    {
        let mut items: Vec<RedisKeysItem> = Vec::new();
        let ghost ks = redis_keys@;
        for k in it: redis_keys
            invariant
                it.seq() == ks,
                keys_of(items@) == strings_view(it.seq().take(it.index() as int)),
        {
            proof {
                assert(strings_view(it.seq().take(it.index() + 1)) =~= strings_view(
                    it.seq().take(it.index() as int),
                ).push(k@));
            }
            items.push(RedisKeysItem::new(k));
            assert(keys_of(items@) =~= strings_view(it.seq().take(it.index() + 1)));
        }
        assert(ks.take(ks.len() as int) =~= ks);
        RedisKeysList { items, state: ListSelection::new() }
    }
}

/// The fields of a hash value on screen, and the selected field.
pub struct UiRedisValueList {
    items: Vec<(String, String)>,
    state: ListSelection,
}

/// A value on screen: a text, or the list of the fields of a hash.
pub enum UiRedisValue {
    Simple(String),
    List(UiRedisValueList),
}

/// The view of a value on screen.
pub enum UiValueView {
    Simple(Seq<char>),
    List(Seq<PairView>, Option<usize>),
}

impl View for UiRedisValue {
    type V = UiValueView;

    closed spec fn view(&self) -> UiValueView {
        match self {
            UiRedisValue::Simple(s) => UiValueView::Simple(s@),
            UiRedisValue::List(l) => UiValueView::List(pairs_view(l.items@), l.state@),
        }
    }
}

/// The view of an optional value on screen.
pub open spec fn value_view(v: Option<UiRedisValue>) -> Option<UiValueView> {
    match v {
        None => None,
        Some(u) => Some(u@),
    }
}

/// How a value fetched from the server is shown.
pub open spec fn shown(value: RedisValue) -> UiValueView {
    match value {
        RedisValue::Unknown => UiValueView::Simple("Unknown value"@),
        RedisValue::Hash(h) => UiValueView::List(h@, Some(0usize)),
    }
}

impl UiRedisValue {
    /// How `redis_value` is shown: a hash as the list of its fields, in the order of
    /// field names, with the first selected; any other value as a message.
    pub fn from_redis_value(redis_value: RedisValue) -> (r: UiRedisValue)
        ensures
            r@ == shown(redis_value),
    {
        match redis_value {
            RedisValue::Unknown => UiRedisValue::Simple(owned("Unknown value")),
            RedisValue::Hash(hash) => UiRedisValue::List(
                UiRedisValueList {
                    items: hash.into_entries(),
                    state: ListSelection::with_selected(Some(0)),
                },
            ),
        }
    }
}

/// The view of an optional string.
pub open spec fn opt_view(o: Option<String>) -> Option<Seq<char>> {
    match o {
        None => None,
        Some(s) => Some(s@),
    }
}

// ---------------------------------------------------------------------------
// The model of the state and of every operation
// ---------------------------------------------------------------------------

/// What the browser's state holds.
pub struct AppView {
    pub should_exit: bool,
    /// All keys, in order.
    pub keys: Seq<Seq<char>>,
    /// The selection in the list of keys.
    pub selected: Option<usize>,
    /// The value on screen.
    pub value: Option<UiValueView>,
    /// The text typed into the key filter.
    pub key_input: Seq<char>,
    pub mode: Mode,
    /// The keys that contain the input.
    pub filtered: Seq<Seq<char>>,
    /// The share of the width that the list of keys takes, in percent.
    pub percent: u16,
    /// How many characters of the keys are scrolled out on the left.
    pub scroll: usize,
}

/// The effect of an operation: the new state, and the key whose value is to be
/// fetched and shown, if any.
pub type Outcome = (AppView, Option<Seq<char>>);

/// The share of the width that the list of keys takes stays between these bounds.
pub open spec fn percent_ok(p: u16) -> bool {
    10 <= p <= 89
}

impl AppView {
    /// The state is consistent: the filtered keys are the keys that contain the
    /// input, and the split of the width is within its bounds.
    pub open spec fn inv(self) -> bool {
        &&& self.filtered == filter_keys(self.keys, self.key_input)
        &&& percent_ok(self.percent)
    }

    pub open spec fn with_mode(self, mode: Mode) -> AppView {
        AppView { mode, ..self }
    }

    /// The outcome that changes the state only.
    pub open spec fn only(self) -> Outcome {
        (self, None)
    }
}

/// `q`: ask to exit.
pub open spec fn exit_spec(v: AppView) -> AppView {
    AppView { should_exit: true, ..v }
}

/// Enter: focus the highlighted part.
pub open spec fn focus_highlighted_spec(v: AppView) -> AppView {
    match v.mode {
        Mode::SelectingParts(p) => v.with_mode(Mode::FocusedOnPart(p)),
        _ => v,
    }
}

/// Esc: highlight the focused part.
pub open spec fn highlight_focused_spec(v: AppView) -> AppView {
    match v.mode {
        Mode::FocusedOnPart(p) => v.with_mode(Mode::SelectingParts(p)),
        _ => v,
    }
}

/// Moves the highlight from the input down to the keys.
pub open spec fn highlight_down_spec(v: AppView) -> AppView {
    match v.mode {
        Mode::SelectingParts(Part::KeyInput) => v.with_mode(Mode::SelectingParts(Part::RedisKeys)),
        _ => v,
    }
}

/// Moves the highlight from the keys or the value up to the input.
pub open spec fn highlight_up_spec(v: AppView) -> AppView {
    match v.mode {
        Mode::SelectingParts(Part::RedisKeys) | Mode::SelectingParts(Part::RedisValue) => v.with_mode(
            Mode::SelectingParts(Part::KeyInput),
        ),
        _ => v,
    }
}

/// Moves the highlight from the value left to the keys.
pub open spec fn highlight_left_spec(v: AppView) -> AppView {
    match v.mode {
        Mode::SelectingParts(Part::RedisValue) => v.with_mode(Mode::SelectingParts(Part::RedisKeys)),
        _ => v,
    }
}

/// Moves the highlight from the keys right to the value.
pub open spec fn highlight_right_spec(v: AppView) -> AppView {
    match v.mode {
        Mode::SelectingParts(Part::RedisKeys) => v.with_mode(Mode::SelectingParts(Part::RedisValue)),
        _ => v,
    }
}

/// `x` within `[lo, hi]`.
pub open spec fn clamp(x: int, lo: int, hi: int) -> int {
    if x < lo {
        lo
    } else if x > hi {
        hi
    } else {
        x
    }
}

/// Narrows the list of keys by one percent of the width.
pub open spec fn parts_left_spec(v: AppView) -> AppView {
    let p: int = if v.percent > 0 { v.percent - 1 } else { 0 };
    AppView { percent: clamp(p, 10, 89) as u16, ..v }
}

/// Widens the list of keys by one percent of the width.
pub open spec fn parts_right_spec(v: AppView) -> AppView {
    let p: int = if v.percent < u16::MAX { v.percent + 1 } else { u16::MAX as int };
    AppView { percent: clamp(p, 10, 89) as u16, ..v }
}

/// Scrolls the keys one character back.
pub open spec fn keys_left_spec(v: AppView) -> AppView {
    AppView { scroll: if v.scroll > 0 { (v.scroll - 1) as usize } else { 0 }, ..v }
}

/// Scrolls the keys one character on.
pub open spec fn keys_right_spec(v: AppView) -> AppView {
    AppView { scroll: if v.scroll < usize::MAX { (v.scroll + 1) as usize } else { v.scroll }, ..v }
}

/// The key whose value belongs on screen: the selected one among the filtered keys,
/// where an index past the end stands for the last key. None when nothing is
/// selected or no key contains the input.
pub open spec fn value_key(v: AppView) -> Option<Seq<char>> {
    match v.selected {
        None => None,
        Some(i) => if v.filtered.len() == 0 {
            None
        } else {
            Some(v.filtered[clamp(i as int, 0, v.filtered.len() - 1)])
        },
    }
}

/// Brings the value on screen up to date: names the key to fetch, or clears the
/// value when there is none.
pub open spec fn update_value_spec(v: AppView) -> Outcome {
    match value_key(v) {
        None => (AppView { value: None, ..v }, None),
        Some(k) => (v, Some(k)),
    }
}

/// Adds a character to the input, filters the keys again and updates the value.
pub open spec fn push_char_spec(v: AppView, c: char) -> Outcome {
    let input = v.key_input.push(c);
    update_value_spec(AppView { key_input: input, filtered: filter_keys(v.keys, input), ..v })
}

/// Removes the last character of the input, if any, filters the keys again and
/// updates the value.
pub open spec fn pop_char_spec(v: AppView) -> Outcome {
    let input = if v.key_input.len() > 0 { v.key_input.drop_last() } else { v.key_input };
    update_value_spec(AppView { key_input: input, filtered: filter_keys(v.keys, input), ..v })
}

/// Selects another key and updates the value.
pub open spec fn select_key_spec(v: AppView, index: usize) -> Outcome {
    update_value_spec(AppView { selected: Some(index), ..v })
}

/// Moves the selection among the fields of the value on screen, if it is a list.
pub open spec fn select_field_spec(v: AppView, index: spec_fn(Option<usize>) -> usize) -> AppView {
    match v.value {
        Some(UiValueView::List(items, sel)) => AppView {
            value: Some(UiValueView::List(items, Some(index(sel)))),
            ..v
        },
        _ => v,
    }
}

pub open spec fn first_index(s: Option<usize>) -> usize {
    0
}

pub open spec fn last_index(s: Option<usize>) -> usize {
    usize::MAX
}

/// What a key event does.
pub open spec fn handle_key_spec(v: AppView, key: KeyEvent) -> Outcome {
    if key.kind != KeyEventKind::Press {
        v.only()
    } else {
        match v.mode {
            Mode::SelectingParts(_) => match key.code {
                KeyCode::Char('q') => exit_spec(v).only(),
                KeyCode::Enter => focus_highlighted_spec(v).only(),
                KeyCode::Char('j') | KeyCode::Down => highlight_down_spec(v).only(),
                KeyCode::Char('k') | KeyCode::Up => highlight_up_spec(v).only(),
                KeyCode::Char('h') | KeyCode::Left => highlight_left_spec(v).only(),
                KeyCode::Char('l') | KeyCode::Right => highlight_right_spec(v).only(),
                KeyCode::Char('H') => parts_left_spec(v).only(),
                KeyCode::Char('L') => parts_right_spec(v).only(),
                _ => v.only(),
            },
            Mode::FocusedOnPart(Part::KeyInput) => match key.code {
                KeyCode::Backspace => pop_char_spec(v),
                KeyCode::Char(c) => push_char_spec(v, c),
                KeyCode::Enter | KeyCode::Esc => highlight_focused_spec(v).only(),
                _ => v.only(),
            },
            Mode::FocusedOnPart(Part::RedisKeys) => match key.code {
                KeyCode::Char('q') => exit_spec(v).only(),
                KeyCode::Esc => highlight_focused_spec(v).only(),
                KeyCode::Char('h') | KeyCode::Left => keys_left_spec(v).only(),
                KeyCode::Char('j') | KeyCode::Down => select_key_spec(v, next_index(v.selected)),
                KeyCode::Char('k') | KeyCode::Up => select_key_spec(v, previous_index(v.selected)),
                KeyCode::Char('l') => keys_right_spec(v).only(),
                KeyCode::Char('g') | KeyCode::Home => select_key_spec(v, 0),
                KeyCode::Char('G') | KeyCode::End => select_key_spec(v, usize::MAX),
                _ => v.only(),
            },
            Mode::FocusedOnPart(Part::RedisValue) => match key.code {
                KeyCode::Char('q') => exit_spec(v).only(),
                KeyCode::Esc => highlight_focused_spec(v).only(),
                KeyCode::Char('j') | KeyCode::Down => select_field_spec(v, |s| next_index(s)).only(),
                KeyCode::Char('k') | KeyCode::Up => select_field_spec(v, |s| previous_index(s)).only(),
                KeyCode::Char('g') | KeyCode::Home => select_field_spec(v, |s| first_index(s)).only(),
                KeyCode::Char('G') | KeyCode::End => select_field_spec(v, |s| last_index(s)).only(),
                _ => v.only(),
            },
        }
    }
}

// ---------------------------------------------------------------------------
// Lemmas on filtering
// ---------------------------------------------------------------------------

/// Filtering one more key extends the result by that key when it contains the input.
proof fn lemma_filter_step(keys: Seq<Seq<char>>, input: Seq<char>, i: int)
    requires
        0 <= i < keys.len(),
    ensures
        filter_keys(keys.take(i + 1), input) == (if contains(keys[i], input) {
            filter_keys(keys.take(i), input).push(keys[i])
        } else {
            filter_keys(keys.take(i), input)
        }),
{
    reveal(Seq::filter);
    assert(keys.take(i + 1).drop_last() =~= keys.take(i));
    assert(keys.take(i + 1).last() == keys[i]);
}

/// The empty input occurs in every key.
pub proof fn lemma_contains_empty(k: Seq<char>)
    ensures
        contains(k, Seq::<char>::empty()),
{
    assert(k.subrange(0, 0) =~= Seq::<char>::empty());
    assert(crate::text::occurs_at(k, Seq::<char>::empty(), 0));
}

/// Filtering by the empty input keeps every key.
pub proof fn lemma_filter_empty_input(keys: Seq<Seq<char>>)
    ensures
        filter_keys(keys, Seq::<char>::empty()) == keys,
    decreases keys.len(),
{
    reveal(Seq::filter);
    if keys.len() > 0 {
        lemma_filter_empty_input(keys.drop_last());
        lemma_contains_empty(keys.last());
        assert(keys.drop_last().push(keys.last()) =~= keys);
    }
}

// ---------------------------------------------------------------------------
// The state
// ---------------------------------------------------------------------------

/// The state of the browser.
pub struct App {
    should_exit: bool,
    redis_keys_list: RedisKeysList,
    ui_redis_value: Option<UiRedisValue>,
    query: KeyQuery,
    mode: Mode,
    redis_value_part_percent: u16,
    redis_key_horizontal_scroll: usize,
}

/// The text typed into the key filter and the keys that contain it, changed together.
struct KeyQuery {
    key_input: String,
    filtered_keys: Vec<RedisKeysItem>,
}

impl View for App {
    type V = AppView;

    closed spec fn view(&self) -> AppView {
        AppView {
            should_exit: self.should_exit,
            keys: keys_of(self.redis_keys_list.items@),
            selected: self.redis_keys_list.state@,
            value: value_view(self.ui_redis_value),
            key_input: self.query.key_input@,
            mode: self.mode,
            filtered: keys_of(self.query.filtered_keys@),
            percent: self.redis_value_part_percent,
            scroll: self.redis_key_horizontal_scroll,
        }
    }
}

/// Copies of the items.
fn clone_items(items: &Vec<RedisKeysItem>) -> (r: Vec<RedisKeysItem>)
    ensures
        keys_of(r@) == keys_of(items@),
{
    let mut r: Vec<RedisKeysItem> = Vec::new();
    let mut i: usize = 0;
    while i < items.len()
        invariant
            i <= items.len(),
            keys_of(r@) == keys_of(items@).take(i as int),
        decreases items.len() - i,
    {
        let k = items[i].redis_key.clone();
        assert(k@ == items@[i as int]@);
        let ghost before = r@;
        r.push(RedisKeysItem::new(k));
        assert(keys_of(r@) =~= keys_of(before).push(k@));
        assert(keys_of(items@).take(i + 1) =~= keys_of(items@).take(i as int).push(k@));
        i = i + 1;
    }
    assert(keys_of(items@).take(i as int) =~= keys_of(items@));
    r
}

/// The items whose keys contain `key_input`, in their order.
fn calculate_filtered_keys(items: &Vec<RedisKeysItem>, key_input: &String) -> (r: Vec<RedisKeysItem>)
    ensures
        keys_of(r@) == filter_keys(keys_of(items@), key_input@),
{
    let ghost keys = keys_of(items@);
    let ghost input = key_input@;
    let mut filtered: Vec<RedisKeysItem> = Vec::new();
    let n = items.len();
    let mut i: usize = 0;
    while i < n
        invariant
            n == items.len(),
            keys == keys_of(items@),
            input == key_input@,
            i <= n,
            keys_of(filtered@) == filter_keys(keys.take(i as int), input),
        decreases n - i,
    {
        proof {
            lemma_filter_step(keys, input, i as int);
        }
        let item = &items[i];
        if str_contains(item.redis_key.as_str(), key_input.as_str()) {
            filtered.push(RedisKeysItem::new(item.redis_key.clone()));
            assert(keys_of(filtered@) =~= filter_keys(keys.take(i as int), input).push(keys[i as int]));
        }
        i = i + 1;
    }
    assert(keys.take(n as int) =~= keys);
    filtered
}

/// `x` within `[lo, hi]`.
fn clamp_u16(x: u16, lo: u16, hi: u16) -> (r: u16)
    requires
        lo <= hi,
    ensures
        r == clamp(x as int, lo as int, hi as int),
{
    if x < lo {
        lo
    } else if x > hi {
        hi
    } else {
        x
    }
}

impl App {
    /// The filtered keys are always exactly the keys that contain the input, and the
    /// split of the width stays within its bounds.
    #[verifier::type_invariant]
    spec fn well_formed(self) -> bool {
        self@.inv()
    }

    /// The browser over `redis_keys`: the input is empty and highlighted, every key
    /// is listed, nothing is selected, no value is shown, and the list of keys takes
    /// 30 percent of the width.
    pub fn new(redis_keys: Vec<String>) -> (r: App)
        ensures
            r@ == (AppView {
                should_exit: false,
                keys: strings_view(redis_keys@),
                selected: None,
                value: None,
                key_input: Seq::empty(),
                mode: Mode::SelectingParts(Part::KeyInput),
                filtered: strings_view(redis_keys@),
                percent: 30,
                scroll: 0,
            }),
            r@.inv(),
    {
        let redis_keys_list = RedisKeysList::from_keys(redis_keys);
        let filtered_keys = clone_items(&redis_keys_list.items);
        let key_input = String::new();
        proof {
            lemma_filter_empty_input(keys_of(redis_keys_list.items@));
            assert(key_input@ =~= Seq::<char>::empty());
        }
        App {
            should_exit: false,
            redis_keys_list,
            ui_redis_value: None,
            query: KeyQuery { key_input, filtered_keys },
            mode: Mode::SelectingParts(Part::KeyInput),
            redis_value_part_percent: 30,
            redis_key_horizontal_scroll: 0,
        }
    }

    /// Whether the user asked to exit.
    pub fn should_exit(&self) -> (r: bool)
        ensures
            r == self@.should_exit,
    {
        self.should_exit
    }

    /// Which part is highlighted or focused.
    pub fn mode(&self) -> (r: Mode)
        ensures
            r == self@.mode,
    {
        self.mode
    }

    /// Answers a key event. The result names the key whose value the caller is to
    /// fetch and hand back with `show_redis_value`, if any.
    pub fn handle_key(&mut self, key: KeyEvent) -> (r: Option<String>)
        ensures
            (final(self)@, opt_view(r)) == handle_key_spec(old(self)@, key),
            final(self)@.inv(),
    {
        let r = if key.kind != KeyEventKind::Press {
            None
        } else {
            self.dispatch_key(key.code)
        };
        proof {
            use_type_invariant(&*self);
        }
        r
    }

    /// What a pressed key does.
    fn dispatch_key(&mut self, code: KeyCode) -> (r: Option<String>)
        ensures
            (final(self)@, opt_view(r)) == handle_key_spec(
                old(self)@,
                KeyEvent { code, kind: KeyEventKind::Press },
            ),
    {
        proof {
            use_type_invariant(&*self);
        }
        let key = KeyEvent { code, kind: KeyEventKind::Press };
        match self.mode {
            Mode::SelectingParts(_) => match key.code {
                KeyCode::Char('q') => { self.should_exit = true; None },
                KeyCode::Enter => { self.focus_highlighted(); None },
                KeyCode::Char('j') | KeyCode::Down => { self.highlight_down(); None },
                KeyCode::Char('k') | KeyCode::Up => { self.highlight_up(); None },
                KeyCode::Char('h') | KeyCode::Left => { self.highlight_left(); None },
                KeyCode::Char('l') | KeyCode::Right => { self.highlight_right(); None },
                KeyCode::Char('H') => { self.redis_parts_left(); None },
                KeyCode::Char('L') => { self.redis_parts_right(); None },
                _ => None,
            },
            Mode::FocusedOnPart(part) => match part {
                Part::KeyInput => match key.code {
                    KeyCode::Backspace => self.pop_key_input_char(),
                    KeyCode::Char(value) => self.push_key_input_char(value),
                    KeyCode::Enter | KeyCode::Esc => { self.highlight_focused(); None },
                    _ => None,
                },
                Part::RedisKeys => match key.code {
                    KeyCode::Char('q') => { self.should_exit = true; None },
                    KeyCode::Esc => { self.highlight_focused(); None },
                    KeyCode::Char('h') | KeyCode::Left => { self.redis_keys_left(); None },
                    KeyCode::Char('j') | KeyCode::Down => self.redis_keys_select_next(),
                    KeyCode::Char('k') | KeyCode::Up => self.redis_keys_select_previous(),
                    KeyCode::Char('l') => { self.redis_keys_right(); None },
                    KeyCode::Char('g') | KeyCode::Home => self.redis_keys_select_first(),
                    KeyCode::Char('G') | KeyCode::End => self.redis_keys_select_last(),
                    _ => None,
                },
                Part::RedisValue => match key.code {
                    KeyCode::Char('q') => { self.should_exit = true; None },
                    KeyCode::Esc => { self.highlight_focused(); None },
                    KeyCode::Char('j') | KeyCode::Down => { self.redis_value_select_next(); None },
                    KeyCode::Char('k') | KeyCode::Up => { self.redis_value_select_previous(); None },
                    KeyCode::Char('g') | KeyCode::Home => { self.redis_value_select_first(); None },
                    KeyCode::Char('G') | KeyCode::End => { self.redis_value_select_last(); None },
                    _ => None,
                },
            },
        }
    }

    /// Removes the last character of the input.
    fn pop_key_input_char(&mut self) -> (r: Option<String>)
        ensures
            (final(self)@, opt_view(r)) == pop_char_spec(old(self)@),
    {
        proof {
            use_type_invariant(&*self);
        }
        let mut key_input = self.query.key_input.clone();
        string_pop(&mut key_input);
        let filtered_keys = calculate_filtered_keys(&self.redis_keys_list.items, &key_input);
        self.query = KeyQuery { key_input, filtered_keys };
        self.update_redis_value()
    }

    /// Adds a character to the input.
    fn push_key_input_char(&mut self, value: char) -> (r: Option<String>)
        ensures
            (final(self)@, opt_view(r)) == push_char_spec(old(self)@, value),
    {
        proof {
            use_type_invariant(&*self);
        }
        let mut key_input = self.query.key_input.clone();
        string_push(&mut key_input, value);
        let filtered_keys = calculate_filtered_keys(&self.redis_keys_list.items, &key_input);
        self.query = KeyQuery { key_input, filtered_keys };
        self.update_redis_value()
    }

    /// Narrows the list of keys.
    fn redis_parts_left(&mut self)
        ensures
            final(self)@ == parts_left_spec(old(self)@),
    {
        proof {
            use_type_invariant(&*self);
        }
        self.redis_value_part_percent = clamp_u16(self.redis_value_part_percent.saturating_sub(1), 10, 89);
    }

    /// Widens the list of keys.
    fn redis_parts_right(&mut self)
        ensures
            final(self)@ == parts_right_spec(old(self)@),
    {
        proof {
            use_type_invariant(&*self);
        }
        self.redis_value_part_percent = clamp_u16(self.redis_value_part_percent.saturating_add(1), 10, 89);
    }

    /// Focuses the highlighted part.
    fn focus_highlighted(&mut self)
        ensures
            final(self)@ == focus_highlighted_spec(old(self)@),
    {
        proof {
            use_type_invariant(&*self);
        }
        let new_mode = match self.mode {
            Mode::SelectingParts(part) => Mode::FocusedOnPart(part),
            _ => {
                return;
            },
        };
        self.mode = new_mode;
    }

    /// Highlights the focused part.
    fn highlight_focused(&mut self)
        ensures
            final(self)@ == highlight_focused_spec(old(self)@),
    {
        proof {
            use_type_invariant(&*self);
        }
        let new_mode = match self.mode {
            Mode::FocusedOnPart(part) => Mode::SelectingParts(part),
            _ => {
                return;
            },
        };
        self.mode = new_mode;
    }

    fn highlight_down(&mut self)
        ensures
            final(self)@ == highlight_down_spec(old(self)@),
    {
        proof {
            use_type_invariant(&*self);
        }
        let new_highlighted_part = match self.mode {
            Mode::SelectingParts(highlighted_part) => match highlighted_part {
                Part::KeyInput => Part::RedisKeys,
                _ => highlighted_part,
            },
            _ => {
                return;
            },
        };
        self.mode = Mode::SelectingParts(new_highlighted_part);
    }

    fn highlight_up(&mut self)
        ensures
            final(self)@ == highlight_up_spec(old(self)@),
    {
        proof {
            use_type_invariant(&*self);
        }
        let new_highlighted_part = match self.mode {
            Mode::SelectingParts(highlighted_part) => match highlighted_part {
                Part::RedisKeys | Part::RedisValue => Part::KeyInput,
                _ => highlighted_part,
            },
            _ => {
                return;
            },
        };
        self.mode = Mode::SelectingParts(new_highlighted_part);
    }

    fn highlight_left(&mut self)
        ensures
            final(self)@ == highlight_left_spec(old(self)@),
    {
        proof {
            use_type_invariant(&*self);
        }
        let new_highlighted_part = match self.mode {
            Mode::SelectingParts(highlighted_part) => match highlighted_part {
                Part::RedisValue => Part::RedisKeys,
                _ => highlighted_part,
            },
            _ => {
                return;
            },
        };
        self.mode = Mode::SelectingParts(new_highlighted_part);
    }

    fn highlight_right(&mut self)
        ensures
            final(self)@ == highlight_right_spec(old(self)@),
    {
        proof {
            use_type_invariant(&*self);
        }
        let new_highlighted_part = match self.mode {
            Mode::SelectingParts(highlighted_part) => match highlighted_part {
                Part::RedisKeys => Part::RedisValue,
                _ => highlighted_part,
            },
            _ => {
                return;
            },
        };
        self.mode = Mode::SelectingParts(new_highlighted_part);
    }

    /// Brings the value on screen up to date with the selected key: clears it when
    /// no key is selected or none contains the input, and otherwise names the key
    /// whose value the caller is to fetch.
    fn update_redis_value(&mut self) -> (r: Option<String>)
        ensures
            (final(self)@, opt_view(r)) == update_value_spec(old(self)@),
    {
        proof {
            use_type_invariant(&*self);
        }
        match self.redis_keys_list.state.selected() {
            Some(i) => {
                if self.query.filtered_keys.is_empty() {
                    self.ui_redis_value = None;
                    None
                } else {
                    let last = self.query.filtered_keys.len() - 1;
                    let index = if i < last { i } else { last };
                    let redis_key = &self.query.filtered_keys[index];
                    Some(redis_key.redis_key.clone())
                }
            },
            None => {
                self.ui_redis_value = None;
                None
            },
        }
    }

    /// Shows a value fetched from the server.
    pub fn show_redis_value(&mut self, redis_value: RedisValue)
        ensures
            final(self)@ == (AppView { value: Some(shown(redis_value)), ..old(self)@ }),
    {
        proof {
            use_type_invariant(&*self);
        }
        self.ui_redis_value = Some(UiRedisValue::from_redis_value(redis_value));
    }

    fn redis_keys_left(&mut self)
        ensures
            final(self)@ == keys_left_spec(old(self)@),
    {
        proof {
            use_type_invariant(&*self);
        }
        self.redis_key_horizontal_scroll = self.redis_key_horizontal_scroll.saturating_sub(1);
    }

    fn redis_keys_right(&mut self)
        ensures
            final(self)@ == keys_right_spec(old(self)@),
    {
        proof {
            use_type_invariant(&*self);
        }
        self.redis_key_horizontal_scroll = self.redis_key_horizontal_scroll.saturating_add(1);
    }

    fn redis_keys_select_next(&mut self) -> (r: Option<String>)
        ensures
            (final(self)@, opt_view(r)) == select_key_spec(old(self)@, next_index(old(self)@.selected)),
    {
        proof {
            use_type_invariant(&*self);
        }
        let mut state = ListSelection::with_selected(self.redis_keys_list.state.selected());
        state.select_next();
        self.redis_keys_list.state = state;
        self.update_redis_value()
    }

    fn redis_keys_select_previous(&mut self) -> (r: Option<String>)
        ensures
            (final(self)@, opt_view(r)) == select_key_spec(old(self)@, previous_index(old(self)@.selected)),
    {
        proof {
            use_type_invariant(&*self);
        }
        let mut state = ListSelection::with_selected(self.redis_keys_list.state.selected());
        state.select_previous();
        self.redis_keys_list.state = state;
        self.update_redis_value()
    }

    fn redis_keys_select_first(&mut self) -> (r: Option<String>)
        ensures
            (final(self)@, opt_view(r)) == select_key_spec(old(self)@, 0),
    {
        proof {
            use_type_invariant(&*self);
        }
        let mut state = ListSelection::with_selected(self.redis_keys_list.state.selected());
        state.select_first();
        self.redis_keys_list.state = state;
        self.update_redis_value()
    }

    fn redis_keys_select_last(&mut self) -> (r: Option<String>)
        ensures
            (final(self)@, opt_view(r)) == select_key_spec(old(self)@, usize::MAX),
    {
        proof {
            use_type_invariant(&*self);
        }
        let mut state = ListSelection::with_selected(self.redis_keys_list.state.selected());
        state.select_last();
        self.redis_keys_list.state = state;
        self.update_redis_value()
    }

    fn redis_value_select_next(&mut self)
        ensures
            final(self)@ == select_field_spec(old(self)@, |s| next_index(s)),
    {
        proof {
            use_type_invariant(&*self);
        }
        let mut ui_value: Option<UiRedisValue> = None;
        std::mem::swap(&mut ui_value, &mut self.ui_redis_value);
        match &mut ui_value {
            Some(UiRedisValue::List(value)) => value.state.select_next(),
            _ => {},
        }
        self.ui_redis_value = ui_value;
    }

    fn redis_value_select_previous(&mut self)
        ensures
            final(self)@ == select_field_spec(old(self)@, |s| previous_index(s)),
    {
        proof {
            use_type_invariant(&*self);
        }
        let mut ui_value: Option<UiRedisValue> = None;
        std::mem::swap(&mut ui_value, &mut self.ui_redis_value);
        match &mut ui_value {
            Some(UiRedisValue::List(value)) => value.state.select_previous(),
            _ => {},
        }
        self.ui_redis_value = ui_value;
    }

    fn redis_value_select_first(&mut self)
        ensures
            final(self)@ == select_field_spec(old(self)@, |s| first_index(s)),
    {
        proof {
            use_type_invariant(&*self);
        }
        let mut ui_value: Option<UiRedisValue> = None;
        std::mem::swap(&mut ui_value, &mut self.ui_redis_value);
        match &mut ui_value {
            Some(UiRedisValue::List(value)) => value.state.select_first(),
            _ => {},
        }
        self.ui_redis_value = ui_value;
    }

    fn redis_value_select_last(&mut self)
        ensures
            final(self)@ == select_field_spec(old(self)@, |s| last_index(s)),
    {
        proof {
            use_type_invariant(&*self);
        }
        let mut ui_value: Option<UiRedisValue> = None;
        std::mem::swap(&mut ui_value, &mut self.ui_redis_value);
        match &mut ui_value {
            Some(UiRedisValue::List(value)) => value.state.select_last(),
            _ => {},
        }
        self.ui_redis_value = ui_value;
    }
}


// ---------------------------------------------------------------------------
// What is drawn
// ---------------------------------------------------------------------------

/// The widest of the keys, in bytes; 0 when there are none.
pub open spec fn longest_key(keys: Seq<Seq<char>>) -> usize
    decreases keys.len(),
{
    if keys.len() == 0 {
        0
    } else {
        let m = longest_key(keys.drop_last());
        let w = byte_len(keys.last());
        if w > m {
            w
        } else {
            m
        }
    }
}

/// How far the keys can be scrolled when the list is `width` cells wide: the widest
/// key less the room for the keys (the width less five cells for the border and the
/// selection marker), or 0.
pub open spec fn scroll_limit(v: AppView, width: usize) -> usize {
    let l = longest_key(v.filtered);
    let room = width - 5;
    if l > room {
        (l - room) as usize
    } else {
        0
    }
}

/// Before the list of keys is drawn, the first key is selected if none is.
pub open spec fn keys_panel_start(v: AppView) -> Outcome {
    if v.selected is None {
        select_key_spec(v, 0)
    } else {
        v.only()
    }
}

/// The line under the list of keys: the position of the selected key among the
/// filtered keys, their number, and the number of all keys when some are filtered out.
pub open spec fn keys_matches_text(v: AppView) -> Seq<char> {
    let n = v.filtered.len();
    let sel: int = match v.selected {
        Some(i) => i as int,
        None => 0,
    };
    if n == 0 {
        "No matches"@
    } else {
        let cur = (clamp(sel, 0, n - 1) + 1) as nat;
        let total = v.keys.len();
        if n == total {
            decimal(cur) + "/"@ + decimal(n)
        } else {
            decimal(cur) + "/"@ + decimal(n) + " (total "@ + decimal(total) + ")"@
        }
    }
}

/// The line under the fields of a hash: the position of the selected field, counting
/// from 1 (the first when none is selected), and the number of fields.
pub open spec fn fields_matches_text(n: nat, selected: Option<usize>) -> Seq<char> {
    let sel: int = match selected {
        Some(i) => i as int,
        None => 0,
    };
    if n == 0 {
        "No fields"@
    } else {
        decimal((clamp(sel, 0, n - 1) + 1) as nat) + "/"@ + decimal(n)
    }
}

/// What the list of keys shows.
pub struct KeysPanel {
    /// The key whose value is to be fetched and shown, if any.
    pub fetch: Option<String>,
    /// The line under the list.
    pub matches_text: String,
    /// The visible part of each filtered key.
    pub lines: Vec<String>,
    /// How far the keys can be scrolled.
    pub largest_horizontal_scroll: usize,
}

/// The fields of a hash on screen.
pub struct FieldsPanel {
    /// One `name: value` line per field.
    pub lines: Vec<String>,
    /// The line under the list.
    pub matches_text: String,
    /// The selected field.
    pub selected: Option<usize>,
}

/// What the value part shows.
pub enum ValuePanel {
    Text(String),
    Fields(FieldsPanel),
}

/// Appends `cur/n` to `s`.
fn push_position(s: &mut String, cur: usize, n: usize)
    ensures
        final(s)@ == old(s)@ + decimal(cur as nat) + "/"@ + decimal(n as nat),
{
    push_decimal(s, cur);
    push_str(s, "/");
    push_decimal(s, n);
}

impl App {
    /// Prepares the list of keys for drawing in a list `area_width` cells wide: selects
    /// the first key if none is selected (naming its value to fetch), keeps the
    /// scrolling within its limit, and gives the visible part of every filtered key.
    pub fn keys_panel(&mut self, area_width: usize) -> (r: KeysPanel)
        requires
            area_width >= 5,
            old(self)@.filtered.len() > 0 ==> (if old(self)@.scroll < scroll_limit(old(self)@, area_width) {
                old(self)@.scroll as int
            } else {
                scroll_limit(old(self)@, area_width) as int
            }) + area_width <= usize::MAX,
        ensures
            ({
                let (v1, fetch) = keys_panel_start(old(self)@);
                let limit = scroll_limit(v1, area_width);
                let scroll = if v1.scroll < limit { v1.scroll } else { limit };
                &&& final(self)@ == AppView { scroll, ..v1 }
                &&& opt_view(r.fetch) == fetch
                &&& r.matches_text@ == keys_matches_text(v1)
                &&& r.largest_horizontal_scroll == limit
                &&& strings_view(r.lines@) == v1.filtered.map_values(
                    |k: Seq<char>| char_window(k, scroll as nat, area_width as nat),
                )
            }),
            final(self)@.inv(),
    {
        proof {
            use_type_invariant(&*self);
        }
        let fetch = if self.redis_keys_list.state.selected().is_none() {
            let mut state = ListSelection::with_selected(self.redis_keys_list.state.selected());
            state.select_first();
            self.redis_keys_list.state = state;
            self.update_redis_value()
        } else {
            None
        };
        let ghost v1 = self@;
        let num_items = self.query.filtered_keys.len();
        let mut matches_text = String::new();
        if num_items == 0 {
            push_str(&mut matches_text, "No matches");
        } else {
            let selected = match self.redis_keys_list.state.selected() {
                Some(i) => i,
                None => 0,
            };
            let current_item_index = (if selected < num_items - 1 { selected } else { num_items - 1 }) + 1;
            let total_num_keys = self.redis_keys_list.items.len();
            push_position(&mut matches_text, current_item_index, num_items);
            if num_items != total_num_keys {
                push_str(&mut matches_text, " (total ");
                push_decimal(&mut matches_text, total_num_keys);
                push_str(&mut matches_text, ")");
            }
        }
        // The widest filtered key.
        let mut longest: usize = 0;
        let mut i: usize = 0;
        while i < num_items
            invariant
                num_items == self.query.filtered_keys.len(),
                i <= num_items,
                longest == longest_key(keys_of(self.query.filtered_keys@).take(i as int)),
            decreases num_items - i,
        {
            let w = byte_length(self.query.filtered_keys[i].redis_key.as_str());
            proof {
                let ks = keys_of(self.query.filtered_keys@);
                assert(ks.take(i + 1).drop_last() =~= ks.take(i as int));
            }
            if w > longest {
                longest = w;
            }
            i = i + 1;
        }
        assert(keys_of(self.query.filtered_keys@).take(num_items as int) =~= keys_of(self.query.filtered_keys@));
        let largest_horizontal_scroll = longest.saturating_sub(area_width - 5);
        if largest_horizontal_scroll < self.redis_key_horizontal_scroll {
            self.redis_key_horizontal_scroll = largest_horizontal_scroll;
        }
        let scroll = self.redis_key_horizontal_scroll;
        let mut lines: Vec<String> = Vec::new();
        let mut j: usize = 0;
        while j < num_items
            invariant
                num_items == self.query.filtered_keys.len(),
                num_items > 0 ==> scroll + area_width <= usize::MAX,
                j <= num_items,
                strings_view(lines@) == keys_of(self.query.filtered_keys@).take(j as int).map_values(
                    |k: Seq<char>| char_window(k, scroll as nat, area_width as nat),
                ),
            decreases num_items - j,
        {
            let text = horizontal_slice(self.query.filtered_keys[j].redis_key.as_str(), scroll, area_width);
            let line = owned(text);
            let ghost before = lines@;
            lines.push(line);
            proof {
                let ks = keys_of(self.query.filtered_keys@);
                assert(line@ == char_window(ks[j as int], scroll as nat, area_width as nat));
                assert(strings_view(lines@) =~= strings_view(before).push(line@));
                assert(strings_view(lines@) =~= ks.take(j + 1).map_values(
                    |k: Seq<char>| char_window(k, scroll as nat, area_width as nat),
                ));
            }
            j = j + 1;
        }
        assert(keys_of(self.query.filtered_keys@).take(num_items as int) =~= keys_of(self.query.filtered_keys@));
        proof {
            use_type_invariant(&*self);
        }
        KeysPanel { fetch, matches_text, lines, largest_horizontal_scroll }
    }

    /// What the value part shows: a message when no key is selected, the text of a
    /// value that is not a hash, or the fields of a hash.
    pub fn value_panel(&self) -> (r: ValuePanel)
        ensures
            match self@.value {
                None => r matches ValuePanel::Text(t) && t@ == "No key selected"@,
                Some(UiValueView::Simple(s)) => r matches ValuePanel::Text(t) && t@ == s,
                Some(UiValueView::List(items, sel)) => r matches ValuePanel::Fields(f) && strings_view(
                    f.lines@,
                ) == items.map_values(|e: PairView| field_line(e)) && f.matches_text@
                    == fields_matches_text(items.len(), sel) && f.selected == sel,
            },
    {
        match &self.ui_redis_value {
            None => ValuePanel::Text(owned("No key selected")),
            Some(UiRedisValue::Simple(value)) => ValuePanel::Text(value.clone()),
            Some(UiRedisValue::List(value)) => {
                let ghost items = pairs_view(value.items@);
                let num_items = value.items.len();
                let mut matches_text = String::new();
                if num_items == 0 {
                    push_str(&mut matches_text, "No fields");
                } else {
                    let selected = match value.state.selected() {
                        Some(i) => i,
                        None => 0,
                    };
                    let current_item_index = (if selected < num_items - 1 { selected } else { num_items - 1 }) + 1;
                    push_position(&mut matches_text, current_item_index, num_items);
                }
                let mut lines: Vec<String> = Vec::new();
                let mut i: usize = 0;
                while i < num_items
                    invariant
                        num_items == value.items.len(),
                        items == pairs_view(value.items@),
                        i <= num_items,
                        strings_view(lines@) == items.take(i as int).map_values(
                            |e: PairView| field_line(e),
                        ),
                    decreases num_items - i,
                {
                    let mut line = String::new();
                    push_str(&mut line, value.items[i].0.as_str());
                    push_str(&mut line, ": ");
                    push_str(&mut line, value.items[i].1.as_str());
                    let ghost before = lines@;
                    lines.push(line);
                    assert(line@ == field_line(items[i as int]));
                    assert(strings_view(lines@) =~= strings_view(before).push(line@));
                    assert(strings_view(lines@) =~= items.take(i + 1).map_values(
                        |e: PairView| field_line(e),
                    ));
                    i = i + 1;
                }
                assert(items.take(num_items as int) =~= items);
                ValuePanel::Fields(FieldsPanel { lines, matches_text, selected: value.state.selected() })
            },
        }
    }

    /// The column of the cursor when the input is focused: seven cells after the
    /// left edge, plus the length of the input in bytes taken modulo 2^16.
    pub fn key_input_cursor_x(&self) -> (r: u16)
        requires
            (byte_len(self@.key_input) as int % 65536) + 7 <= u16::MAX,
        ensures
            r == (byte_len(self@.key_input) as int % 65536) + 7,
    {
        let len = byte_length(self.query.key_input.as_str());
        let low = (len % 65536) as u16;
        7 + low
    }

    /// The text typed into the key filter.
    pub fn key_input(&self) -> (r: &String)
        ensures
            r@ == self@.key_input,
    {
        &self.query.key_input
    }

    /// The share of the width, in percent, that the list of keys takes.
    pub fn redis_keys_percent(&self) -> (r: u16)
        ensures
            r == self@.percent,
    {
        self.redis_value_part_percent
    }

    /// The share of the width, in percent, that the value takes: the rest.
    pub fn redis_value_percent(&self) -> (r: u16)
        ensures
            r == 100 - self@.percent,
    {
        proof {
            use_type_invariant(self);
        }
        100 - self.redis_value_part_percent
    }

    /// Whether `part` is highlighted.
    pub fn is_highlighted(&self, part: Part) -> (r: bool)
        ensures
            r == (self@.mode == Mode::SelectingParts(part)),
    {
        self.mode == Mode::SelectingParts(part)
    }

    /// Whether `part` is focused.
    pub fn is_focused(&self, part: Part) -> (r: bool)
        ensures
            r == (self@.mode == Mode::FocusedOnPart(part)),
    {
        self.mode == Mode::FocusedOnPart(part)
    }

    /// The selection in the list of keys.
    pub fn redis_keys_selected(&self) -> (r: Option<usize>)
        ensures
            r == self@.selected,
    {
        self.redis_keys_list.state.selected()
    }

    /// The number of keys that contain the input.
    pub fn filtered_len(&self) -> (r: usize)
        ensures
            r == self@.filtered.len(),
    {
        self.query.filtered_keys.len()
    }

    /// How many characters of the keys are scrolled out on the left.
    pub fn redis_key_horizontal_scroll(&self) -> (r: usize)
        ensures
            r == self@.scroll,
    {
        self.redis_key_horizontal_scroll
    }

    /// Takes over the selection in the list of keys as drawing left it (drawing
    /// moves a selection past the end to the last item, and clears it when the list
    /// is empty).
    pub fn set_redis_keys_selected(&mut self, selected: Option<usize>)
        ensures
            final(self)@ == (AppView { selected, ..old(self)@ }),
    {
        proof {
            use_type_invariant(&*self);
        }
        self.redis_keys_list.state = ListSelection::with_selected(selected);
    }

    /// Takes over the selection among the fields of the value as drawing left it.
    pub fn set_redis_value_selected(&mut self, selected: Option<usize>)
        ensures
            final(self)@ == (match old(self)@.value {
                Some(UiValueView::List(items, _)) => AppView {
                    value: Some(UiValueView::List(items, selected)),
                    ..old(self)@
                },
                _ => old(self)@,
            }),
    {
        proof {
            use_type_invariant(&*self);
        }
        let mut ui_value: Option<UiRedisValue> = None;
        std::mem::swap(&mut ui_value, &mut self.ui_redis_value);
        match &mut ui_value {
            Some(UiRedisValue::List(value)) => value.state.select(selected),
            _ => {},
        }
        self.ui_redis_value = ui_value;
    }
}

} // verus!
