//! The tracer: which events are shown, under which spans, and how the fields
//! of an event are written.  Its filters come from the text of `RUST_LOG`.
use vstd::prelude::*;
use std::collections::HashMap;
use crate::log::{Level, level_rank, level_of_text, lowercase_spec, string_to_level};
use crate::text::{split_spec, split_text, chars_of, string_from_chars};
use crate::item::text_is;

verus! {

broadcast use {vstd::std_specs::hash::group_hash_axioms, vstd::std_specs::vec::group_vec_axioms};

/// Whether `i` is where `c` first occurs in `s`.
pub open spec fn first_at(s: Seq<char>, c: char, i: int) -> bool {
    &&& 0 <= i < s.len()
    &&& s[i] == c
    &&& forall|j: int| 0 <= j < i ==> s[j] != c
}

/// Where `c` first occurs in `s`, or the length of `s` where it does not occur.
pub open spec fn first_index(s: Seq<char>, c: char) -> int {
    if s.contains(c) {
        choose|i: int| first_at(s, c, i)
    } else {
        s.len() as int
    }
}

/// The target of a filter piece: the text before its first `=`, or all of it.
pub open spec fn piece_target(p: Seq<char>) -> Seq<char> {
    p.take(first_index(p, '='))
}

/// The level that a filter piece names after its first `=`; none where it
/// holds no `=` or names no level there.
pub open spec fn piece_level(p: Seq<char>) -> Option<Level> {
    if p.contains('=') {
        level_of_text(lowercase_spec(p.skip(first_index(p, '=') + 1)))
    } else {
        None
    }
}

/// Whether a `RUST_LOG` text can be read: each of its comma-separated pieces
/// that holds no `=` names a level.
pub open spec fn rust_log_valid(s: Seq<char>) -> bool {
    forall|i: int|
        0 <= i < split_spec(s, ',').len() && !(#[trigger] split_spec(s, ',')[i]).contains('=')
            ==> level_of_text(lowercase_spec(split_spec(s, ',')[i])) is Some
}

/// The level of events outside spans: the one that the last piece without
/// `=` names, `Error` where every piece holds a `=`.
pub open spec fn base_level_spec(pieces: Seq<Seq<char>>) -> Level
    decreases pieces.len(),
{
    if pieces.len() == 0 {
        Level::Error
    } else if !pieces.last().contains('=') {
        match level_of_text(lowercase_spec(pieces.last())) {
            Some(l) => l,
            None => Level::Error,
        }
    } else {
        base_level_spec(pieces.drop_last())
    }
}

/// Where `c` first occurs in `s`, or the length of `s`.
fn find_char(s: &Vec<char>, c: char) -> (r: usize)
    ensures
        r as int == first_index(s@, c),
        r < s@.len() <==> s@.contains(c),
{
    let mut i: usize = 0;
    while i < s.len()
        invariant
            i <= s.len(),
            forall|j: int| 0 <= j < i ==> s@[j] != c,
        decreases s.len() - i,
    {
        if s[i] == c {
            proof {
                assert(first_at(s@, c, i as int));
                let k = choose|k: int| first_at(s@, c, k);
                assert(first_at(s@, c, k));
                if k < i {
                    assert(s@[k] != c);
                } else if k > i {
                    assert(s@[i as int] != c);
                }
            }
            return i;
        }
        i = i + 1;
    }
    proof {
        if s@.contains(c) {
            let k = choose|k: int| 0 <= k < s@.len() && s@[k] == c;
            assert(s@[k] != c);
        }
    }
    i
}

/// The characters of `s` from `from` up to `to`, as a string.
fn text_between(s: &Vec<char>, from: usize, to: usize) -> (r: String)
    requires
        from <= to <= s@.len(),
    ensures
        r@ == s@.subrange(from as int, to as int),
{
    let mut v: Vec<char> = Vec::new();
    let mut i: usize = from;
    while i < to
        invariant
            from <= i <= to <= s@.len(),
            v@ == s@.subrange(from as int, i as int),
        decreases to - i,
    {
        v.push(s[i]);
        proof {
            assert(v@ =~= s@.subrange(from as int, i + 1));
        }
        i = i + 1;
    }
    string_from_chars(v.as_slice())
}

/// The target of a filter piece and the level it names after its `=`.
fn read_piece(p: &str) -> (r: (String, Option<Level>))
    ensures
        r.0@ == piece_target(p@),
        r.1 == piece_level(p@),
{
    let cs = chars_of(p);
    let at = find_char(&cs, '=');
    let target = text_between(&cs, 0, at);
    assert(cs@.subrange(0, at as int) =~= p@.take(at as int));
    if at < cs.len() {
        let rest = text_between(&cs, at + 1, cs.len());
        assert(cs@.subrange(at + 1, cs@.len() as int) =~= p@.skip(at + 1));
        let level = string_to_level(rest.as_str());
        (target, level)
    } else {
        (target, None)
    }
}

/// Whether a `RUST_LOG` text can be read by `MinimalTracer::register`: each
/// comma-separated piece that holds no `=` names a level.
pub fn rust_log_is_valid(s: &str) -> (r: bool)
    ensures
        r == rust_log_valid(s@),
{
    let pieces = split_text(s, ',');
    let mut i: usize = 0;
    while i < pieces.len()
        invariant
            i <= pieces@.len(),
            pieces@.len() == split_spec(s@, ',').len(),
            forall|j: int| 0 <= j < pieces@.len() ==> #[trigger] pieces@[j]@ == split_spec(s@, ',')[j],
            forall|j: int|
                0 <= j < i && !(#[trigger] split_spec(s@, ',')[j]).contains('=') ==> level_of_text(
                    lowercase_spec(split_spec(s@, ',')[j]),
                ) is Some,
        decreases pieces@.len() - i,
    {
        let p = pieces[i].as_str();
        let cs = chars_of(p);
        let at = find_char(&cs, '=');
        if at == cs.len() {
            if string_to_level(p).is_none() {
                assert(pieces@[i as int]@ == split_spec(s@, ',')[i as int]);
                return false;
            }
        }
        assert(pieces@[i as int]@ == split_spec(s@, ',')[i as int]);
        i = i + 1;
    }
    true
}


/// A filter read from a piece of `RUST_LOG`: a target and the level after its `=`.
pub struct LogFilter {
    pub target: Option<String>,
    pub level: Option<Level>,
}

/// The model of a filter.
pub open spec fn filter_view(f: LogFilter) -> (Option<Seq<char>>, Option<Level>) {
    (
        match f.target {
            Some(t) => Some(t@),
            None => None,
        },
        f.level,
    )
}

/// Decides which events are shown and under which spans they stand.
///
/// Events more verbose than the current level are dropped.  Entering a span
/// sets the level to that of the span: `Trace` for a span whose name is the
/// target of a filter, `Error` for any other; leaving a span sets it back to
/// the level for events outside spans.
pub struct MinimalTracer {
    enabled: bool,
    filters: Vec<LogFilter>,
    level: Level,
    spans: Vec<u64>,
    span_levels: HashMap<u64, Level>,
    span_names: HashMap<u64, String>,
    span_names_to_enable: Vec<String>,
    level_no_span: Level,
    next_span: u64,
}

/// The model of a tracer.
pub struct TracerView {
    /// Whether `RUST_LOG` was set.
    pub enabled: bool,
    pub filters: Seq<(Option<Seq<char>>, Option<Level>)>,
    /// The most verbose level shown now.
    pub level: Level,
    /// The spans entered, outermost first.
    pub spans: Seq<u64>,
    pub span_levels: Map<u64, Level>,
    pub span_names: Map<u64, Seq<char>>,
    /// The span names that get the level `Trace`.
    pub to_enable: Seq<Seq<char>>,
    /// The level for events outside spans.
    pub level_no_span: Level,
    /// The id that the next span gets.
    pub next_span: u64,
}

impl View for MinimalTracer {
    type V = TracerView;

    closed spec fn view(&self) -> TracerView {
        TracerView {
            enabled: self.enabled,
            filters: self.filters@.map_values(|f: LogFilter| filter_view(f)),
            level: self.level,
            spans: self.spans@,
            span_levels: self.span_levels@,
            span_names: self.span_names@.map_values(|s: String| s@),
            to_enable: self.span_names_to_enable@.map_values(|s: String| s@),
            level_no_span: self.level_no_span,
            next_span: self.next_span,
        }
    }
}

impl TracerView {
    /// Every span has a name and a level and an id below `next_span`, and
    /// every span entered is known.
    pub open spec fn wf(self) -> bool {
        &&& 1 <= self.next_span
        &&& self.span_names.dom() == self.span_levels.dom()
        &&& forall|id: u64| #[trigger] self.span_names.dom().contains(id) ==> 1 <= id < self.next_span
        &&& forall|i: int| 0 <= i < self.spans.len() ==> self.span_names.dom().contains(#[trigger] self.spans[i])
    }
}

/// The tracer that a `RUST_LOG` text (or its absence) sets up.
pub open spec fn register_spec(rust_log: Option<Seq<char>>) -> TracerView {
    match rust_log {
        None => TracerView {
            enabled: false,
            filters: Seq::empty(),
            level: Level::Error,
            spans: Seq::empty(),
            span_levels: Map::empty(),
            span_names: Map::empty(),
            to_enable: Seq::empty(),
            level_no_span: Level::Error,
            next_span: 1,
        },
        Some(s) => TracerView {
            enabled: true,
            filters: split_spec(s, ',').map_values(|p: Seq<char>| (Some(piece_target(p)), piece_level(p))),
            level: base_level_spec(split_spec(s, ',')),
            spans: Seq::empty(),
            span_levels: Map::empty(),
            span_names: Map::empty(),
            to_enable: split_spec(s, ',').map_values(|p: Seq<char>| piece_target(p)),
            level_no_span: base_level_spec(split_spec(s, ',')),
            next_span: 1,
        },
    }
}

/// The level a new span named `name` gets.
pub open spec fn span_level_spec(t: TracerView, name: Seq<char>) -> Level {
    if t.to_enable.contains(name) {
        Level::Trace
    } else {
        Level::Error
    }
}

/// The names of the spans, joined by `::`.
pub open spec fn span_text_spec(names: Map<u64, Seq<char>>, spans: Seq<u64>) -> Seq<char>
    decreases spans.len(),
{
    if spans.len() == 0 {
        Seq::empty()
    } else if spans.len() == 1 {
        names[spans[0]]
    } else {
        span_text_spec(names, spans.drop_last()) + "::"@ + names[spans.last()]
    }
}

/// What an event of level `level` shows: nothing where it is more verbose
/// than the current level, else the text of the spans it stands in.
pub open spec fn event_spec(t: TracerView, level: Level) -> Option<Seq<char>> {
    if level_rank(level) > level_rank(t.level) {
        None
    } else {
        Some(span_text_spec(t.span_names, t.spans))
    }
}

impl MinimalTracer {
    /// The tracer for the value of `RUST_LOG`, where it is set.
    pub fn register(rust_log: Option<String>) -> (r: MinimalTracer)
        requires
            rust_log matches Some(s) ==> rust_log_valid(s@),
        ensures
            r@ == register_spec(
                match rust_log {
                    Some(s) => Some(s@),
                    None => None,
                },
            ),
            r@.wf(),
    {
        let empty_levels: HashMap<u64, Level> = HashMap::new();
        let empty_names: HashMap<u64, String> = HashMap::new();
        match rust_log {
            None => {
                let r = MinimalTracer {
                    enabled: false,
                    filters: Vec::new(),
                    level: Level::Error,
                    spans: Vec::new(),
                    span_levels: empty_levels,
                    span_names: empty_names,
                    span_names_to_enable: Vec::new(),
                    level_no_span: Level::Error,
                    next_span: 1,
                };
                assert(r@.filters =~= Seq::<(Option<Seq<char>>, Option<Level>)>::empty());
                assert(r@.to_enable =~= Seq::<Seq<char>>::empty());
                assert(r@.span_names =~= Map::<u64, Seq<char>>::empty());
                r
            },
            Some(v) => {
                let ghost sp = split_spec(v@, ',');
                let pieces = split_text(v.as_str(), ',');
                let mut filters: Vec<LogFilter> = Vec::new();
                let mut to_enable: Vec<String> = Vec::new();
                let mut my_level = Level::Error;
                let mut i: usize = 0;
                while i < pieces.len()
                    invariant
                        i <= pieces@.len(),
                        sp == split_spec(v@, ','),
                        rust_log_valid(v@),
                        pieces@.len() == sp.len(),
                        forall|j: int| 0 <= j < pieces@.len() ==> #[trigger] pieces@[j]@ == sp[j],
                        filters@.len() == i,
                        to_enable@.len() == i,
                        forall|j: int|
                            0 <= j < i ==> #[trigger] filter_view(filters@[j]) == (
                                Some(piece_target(sp[j])),
                                piece_level(sp[j]),
                            ),
                        forall|j: int| 0 <= j < i ==> #[trigger] to_enable@[j]@ == piece_target(sp[j]),
                        my_level == base_level_spec(sp.take(i as int)),
                    decreases pieces@.len() - i,
                {
                    let p = pieces[i].as_str();
                    assert(p@ == sp[i as int]);
                    let (target, level) = read_piece(p);
                    if !crate::text::contains_char(p, '=') {
                        match string_to_level(p) {
                            Some(l) => {
                                my_level = l;
                            },
                            None => {
                                assert(false);
                            },
                        }
                    }
                    proof {
                        assert(sp.take(i + 1).drop_last() =~= sp.take(i as int));
                        assert(sp.take(i + 1).last() == sp[i as int]);
                    }
                    to_enable.push(target.clone());
                    filters.push(LogFilter { target: Some(target), level });
                    i = i + 1;
                }
                assert(sp.take(sp.len() as int) =~= sp);
                let r = MinimalTracer {
                    enabled: true,
                    filters,
                    level: my_level,
                    spans: Vec::new(),
                    span_levels: empty_levels,
                    span_names: empty_names,
                    span_names_to_enable: to_enable,
                    level_no_span: my_level,
                    next_span: 1,
                };
                assert(r@.filters =~= sp.map_values(
                    |p: Seq<char>| (Some(piece_target(p)), piece_level(p)),
                ));
                assert(r@.to_enable =~= sp.map_values(|p: Seq<char>| piece_target(p)));
                assert(r@.span_names =~= Map::<u64, Seq<char>>::empty());
                r
            },
        }
    }
}


/// The names of the spans `spans`, joined by `::`.
fn span_text(names: &HashMap<u64, String>, spans: &Vec<u64>) -> (r: String)
    requires
        forall|i: int| 0 <= i < spans@.len() ==> names@.dom().contains(#[trigger] spans@[i]),
    ensures
        r@ == span_text_spec(names@.map_values(|s: String| s@), spans@),
{
    let ghost nv = names@.map_values(|s: String| s@);
    let mut out = String::new();
    let mut i: usize = 0;
    assert(spans@.take(0) =~= Seq::<u64>::empty());
    while i < spans.len()
        invariant
            i <= spans@.len(),
            nv == names@.map_values(|s: String| s@),
            forall|k: int| 0 <= k < spans@.len() ==> names@.dom().contains(#[trigger] spans@[k]),
            out@ == span_text_spec(nv, spans@.take(i as int)),
        decreases spans@.len() - i,
    {
        let id = spans[i];
        assert(names@.dom().contains(spans@[i as int]));
        let name = match names.get(&id) {
            Some(n) => n,
            None => {
                assert(false);
                return out;
            },
        };
        proof {
            assert(spans@.take(i + 1).drop_last() =~= spans@.take(i as int));
            assert(spans@.take(i + 1).last() == id);
            assert(nv[id] == name@);
        }
        if i > 0 {
            out.append("::");
        }
        out.append(name.as_str());
        proof {
            if i == 0 {
                assert(spans@.take(1)[0] == id);
                assert(out@ =~= name@);
            }
        }
        i = i + 1;
    }
    assert(spans@.take(spans@.len() as int) =~= spans@);
    out
}

impl MinimalTracer {
    /// Whether every event is offered to the tracer: it always is.
    pub fn enabled(&self) -> (r: bool)
        ensures
            r,
    {
        true
    }

    /// The id that the next span gets.
    pub fn next_span_id(&self) -> (r: u64)
        ensures
            r == self@.next_span,
    {
        self.next_span
    }

    /// Whether the span `id` was made by this tracer.
    pub fn knows_span(&self, id: u64) -> (r: bool)
        ensures
            r == self@.span_names.dom().contains(id),
    {
        self.span_names.contains_key(&id)
    }

    /// Starts a span named `name` and gives its id: the next id, counting from 1.
    pub fn new_span(&mut self, name: String) -> (id: u64)
        requires
            old(self)@.wf(),
            old(self)@.next_span < u64::MAX,
        ensures
            id == old(self)@.next_span,
            !old(self)@.span_names.dom().contains(id),
            final(self)@ == (TracerView {
                span_levels: old(self)@.span_levels.insert(id, span_level_spec(old(self)@, name@)),
                span_names: old(self)@.span_names.insert(id, name@),
                next_span: (id + 1) as u64,
                ..old(self)@
            }),
            final(self)@.wf(),
    {
        let id = self.next_span;
        let mut enable = false;
        let mut i: usize = 0;
        while i < self.span_names_to_enable.len()
            invariant
                i <= self.span_names_to_enable@.len(),
                enable <==> exists|j: int| 0 <= j < i && #[trigger] self.span_names_to_enable@[j]@ == name@,
            decreases self.span_names_to_enable@.len() - i,
        {
            if text_is(self.span_names_to_enable[i].as_str(), name.as_str()) {
                enable = true;
            }
            i = i + 1;
        }
        proof {
            let te = self@.to_enable;
            if enable {
                let j = choose|j: int| 0 <= j < i && #[trigger] self.span_names_to_enable@[j]@ == name@;
                assert(te[j] == name@);
            } else {
                if te.contains(name@) {
                    let j = choose|j: int| 0 <= j < te.len() && te[j] == name@;
                    assert(self.span_names_to_enable@[j]@ == name@);
                }
            }
        }
        let level = if enable {
            Level::Trace
        } else {
            Level::Error
        };
        let ghost before = self@;
        self.span_names.insert(id, name);
        self.span_levels.insert(id, level);
        self.next_span = id + 1;
        proof {
            assert(self@.span_names =~= before.span_names.insert(id, name@));
            assert(self@.span_names.dom() =~= self@.span_levels.dom());
        }
        id
    }

    /// Enters the span `id`: events now show with its level, under its name.
    pub fn enter(&mut self, id: u64)
        requires
            old(self)@.wf(),
            old(self)@.span_names.dom().contains(id),
        ensures
            final(self)@ == (TracerView {
                level: old(self)@.span_levels[id],
                spans: old(self)@.spans.push(id),
                ..old(self)@
            }),
            final(self)@.wf(),
    {
        let level = match self.span_levels.get(&id) {
            Some(l) => *l,
            None => {
                assert(false);
                Level::Error
            },
        };
        self.level = level;
        self.spans.push(id);
    }

    /// Leaves the innermost span: the level goes back to that for events
    /// outside spans, whichever span was named.
    pub fn exit(&mut self, id: u64)
        requires
            old(self)@.wf(),
        ensures
            final(self)@ == (TracerView {
                level: old(self)@.level_no_span,
                spans: if old(self)@.spans.len() > 0 {
                    old(self)@.spans.drop_last()
                } else {
                    old(self)@.spans
                },
                ..old(self)@
            }),
            final(self)@.wf(),
    {
        self.level = self.level_no_span;
        let _ = self.spans.pop();
        assert(self@.spans =~= (if old(self)@.spans.len() > 0 {
            old(self)@.spans.drop_last()
        } else {
            old(self)@.spans
        }));
    }

    /// What an event of level `level` shows: `None` where it is dropped, else
    /// the names of the spans it stands in, joined by `::`.
    pub fn event(&self, level: Level) -> (r: Option<String>)
        requires
            self@.wf(),
        ensures
            (match r {
                Some(t) => Some(t@),
                None => None,
            }) == event_spec(self@, level),
    {
        if level_rank_of(level) > level_rank_of(self.level) {
            None
        } else {
            Some(span_text(&self.span_names, &self.spans))
        }
    }
}

fn level_rank_of(l: Level) -> (r: u8)
    ensures
        r == level_rank(l),
{
    match l {
        Level::Error => 1,
        Level::Warn => 2,
        Level::Info => 3,
        Level::Debug => 4,
        Level::Trace => 5,
    }
}

/// Writes the fields of an event into a text.
pub struct StringVisitor {
    string: String,
}

impl View for StringVisitor {
    type V = Seq<char>;

    closed spec fn view(&self) -> Seq<char> {
        self.string@
    }
}

/// How a field is written: the message by its value and a space, any other
/// field as `name = value; `.
pub open spec fn field_text(name: Seq<char>, value: Seq<char>) -> Seq<char> {
    if name == "message"@ {
        value + " "@
    } else {
        name + " = "@ + value + "; "@
    }
}

impl StringVisitor {
    /// A visitor that writes after the text `string`.
    pub fn new(string: String) -> (r: StringVisitor)
        ensures
            r@ == string@,
    {
        StringVisitor { string }
    }

    /// Writes the field `name`, whose value is written `value`.
    pub fn record_debug(&mut self, name: &str, value: &str)
        ensures
            final(self)@ == old(self)@ + field_text(name@, value@),
    {
        if text_is(name, "message") {
            self.string.append(value);
            self.string.append(" ");
        } else {
            self.string.append(name);
            self.string.append(" = ");
            self.string.append(value);
            self.string.append("; ");
        }
    }

    /// The text written so far.
    pub fn into_string(self) -> (r: String)
        ensures
            r@ == self@,
    {
        self.string
    }
}

} // verus!
