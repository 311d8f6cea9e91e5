//! The web server of the first generation of the system: its modules, its
//! renders, and the ids and messages of its protocol.
pub mod proto;
pub mod itemstore;
pub mod server_utils;
pub mod error;
pub mod peers;

use vstd::prelude::*;
use crate::item::text_is;
use crate::text::{split_spec, split_text, contains_char};
use crate::error::texts;
use crate::value::{Cbor, CborValue, model, models, entry_models, lemma_models, lemma_entry_models};
use crate::item::last_with_text_key;

verus! {

broadcast use vstd::std_specs::vec::group_vec_axioms;

/// The language a module of the server is written in, or a module that
/// connects from outside.
#[derive(Debug, Clone, Copy, PartialEq, Eq, Structural)]
pub enum ModuleKind {
    Rust(),
    Python(),
    JS(),
    Lua(),
    Extern(),
}

/// How a render is served.
#[derive(Debug, Clone, Copy, PartialEq, Eq, Structural)]
pub enum RenderType {
    JsonUi,
    WebComponent,
}

/// A render: a way to show items, from a module folder.
#[derive(Debug)]
pub struct Render {
    pub render_type: RenderType,
    pub webroot: String,
    pub name: String,
    pub main: String,
    pub folder: String,
}

/// The render that shows items by default.
pub open spec fn default_render_name() -> Seq<char> {
    "mize-mmejs"@
}

/// The index of the first render named `n`, or the number of renders.
pub open spec fn render_index(names: Seq<Seq<char>>, n: Seq<char>) -> int
    decreases names.len(),
{
    if names.len() == 0 {
        0
    } else if names[0] == n {
        0
    } else {
        1 + render_index(names.drop_first(), n)
    }
}

/// The names of the renders.
pub open spec fn render_names(renders: Seq<Render>) -> Seq<Seq<char>> {
    Seq::new(renders.len(), |i: int| renders[i].name@)
}

fn find_name(renders: &Vec<Render>, name: &str) -> (r: usize)
    ensures
        r == render_index(render_names(renders@), name@),
        r <= renders@.len(),
{
    let ghost names = render_names(renders@);
    let mut i: usize = 0;
    proof {
        assert(names.skip(0) =~= names);
        lemma_render_index_bound(names, name@);
    }
    while i < renders.len()
        invariant
            i <= renders@.len(),
            names == render_names(renders@),
            render_index(names, name@) == i + render_index(names.skip(i as int), name@),
            render_index(names.skip(i as int), name@) <= names.len() - i,
        decreases renders@.len() - i,
    {
        proof {
            assert(names.skip(i as int).drop_first() =~= names.skip(i + 1));
            lemma_render_index_bound(names.skip(i + 1), name@);
        }
        if text_is(renders[i].name.as_str(), name) {
            return i;
        }
        i = i + 1;
    }
    i
}

proof fn lemma_render_index_bound(names: Seq<Seq<char>>, n: Seq<char>)
    ensures
        0 <= render_index(names, n) <= names.len(),
    decreases names.len(),
{
    if names.len() > 0 && names[0] != n {
        lemma_render_index_bound(names.drop_first(), n);
    }
}

/// The render to serve for `id`: the first one with that name, else the
/// first default render; `None` where there is neither.
pub fn find_render(renders: &Vec<Render>, id: &str) -> (r: Option<usize>)
    ensures
        ({
            let names = render_names(renders@);
            if render_index(names, id@) < names.len() {
                r == Some(render_index(names, id@) as usize)
            } else if render_index(names, default_render_name()) < names.len() {
                r == Some(render_index(names, default_render_name()) as usize)
            } else {
                r is None
            }
        }),
{
    proof {
        assert(render_names(renders@).skip(0) =~= render_names(renders@));
        lemma_render_index_bound(render_names(renders@), id@);
        lemma_render_index_bound(render_names(renders@), default_render_name());
    }
    let i = find_name(renders, id);
    if i < renders.len() {
        return Some(i);
    }
    let j = find_name(renders, "mize-mmejs");
    if j < renders.len() {
        Some(j)
    } else {
        None
    }
}

/// The content type a render's main file is served with.
pub fn content_type(t: RenderType) -> (r: &'static str)
    ensures
        r@ == match t {
            RenderType::JsonUi => "application/json"@,
            RenderType::WebComponent => "application/javascript"@,
        },
{
    match t {
        RenderType::JsonUi => "application/json",
        RenderType::WebComponent => "application/javascript",
    }
}

/// The main file of a render: `<folder>/mr/<render folder>/<main>`.
pub fn render_main_path(mize_folder: &str, render: &Render) -> (r: String)
    ensures
        r@ == mize_folder@ + "/mr/"@ + render.folder@ + "/"@ + render.main@,
{
    let mut s = mize_folder.to_owned();
    s.append("/mr/");
    s.append(render.folder.as_str());
    s.append("/");
    s.append(render.main.as_str());
    s
}

/// The route under which a web component's files are served:
/// `/api/render/<name>/webroot`.
pub fn render_webroot_route(render: &Render) -> (r: String)
    ensures
        r@ == "/api/render/"@ + render.name@ + "/webroot"@,
{
    let mut s = String::from_str("/api/render/");
    s.append(render.name.as_str());
    s.append("/webroot");
    s
}

/// The folder a web component's files are served from:
/// `<folder>/mr/<render folder>/<webroot>`.
pub fn render_webroot_path(mize_folder: &str, render: &Render) -> (r: String)
    ensures
        r@ == mize_folder@ + "/mr/"@ + render.folder@ + "/"@ + render.webroot@,
{
    let mut s = mize_folder.to_owned();
    s.append("/mr/");
    s.append(render.folder.as_str());
    s.append("/");
    s.append(render.webroot.as_str());
    s
}

/// The folder the arguments name: every argument after the first of the form
/// `--folder=<f>` adds `<f>`, the text up to its second `=`.
pub open spec fn folder_from_args_spec(args: Seq<Seq<char>>) -> Seq<char>
    decreases args.len(),
{
    if args.len() <= 1 {
        Seq::empty()
    } else {
        let a = args.last();
        let rest = folder_from_args_spec(args.drop_last());
        if a.contains('=') && split_spec(a, '=')[0] == "--folder"@ {
            rest + split_spec(a, '=')[1]
        } else {
            rest
        }
    }
}

/// The folder the server's arguments name (see `folder_from_args_spec`).
pub fn folder_from_args(args: &Vec<String>) -> (r: String)
    ensures
        r@ == folder_from_args_spec(texts(args@)),
{
    let ghost t = texts(args@);
    let mut out = String::new();
    if args.len() <= 1 {
        return out;
    }
    let mut i: usize = 1;
    assert(t.take(1).len() == 1);
    while i < args.len()
        invariant
            1 <= i <= args@.len(),
            t == texts(args@),
            out@ == folder_from_args_spec(t.take(i as int)),
        decreases args@.len() - i,
    {
        proof {
            assert(t.take(i + 1).drop_last() =~= t.take(i as int));
            assert(t.take(i + 1).last() == args@[i as int]@);
        }
        let a = args[i].as_str();
        if contains_char(a, '=') {
            let parts = split_text(a, '=');
            proof {
                crate::text::lemma_split_nonempty(a@, '=');
                lemma_split_two(a@, '=');
            }
            if text_is(parts[0].as_str(), "--folder") {
                out.append(parts[1].as_str());
            }
        }
        i = i + 1;
    }
    assert(t.take(t.len() as int) =~= t);
    out
}

/// A text that holds the separator splits into at least two pieces.
proof fn lemma_split_two(s: Seq<char>, sep: char)
    requires
        s.contains(sep),
    ensures
        split_spec(s, sep).len() >= 2,
    decreases s.len(),
{
    crate::text::lemma_split_nonempty(s.drop_last(), sep);
    if s.last() != sep {
        assert(s.drop_last().contains(sep)) by {
            let i = choose|i: int| 0 <= i < s.len() && s[i] == sep;
            assert(i != s.len() - 1);
            assert(s.drop_last()[i] == sep);
        }
        lemma_split_two(s.drop_last(), sep);
    }
}

/// The model of a render.
pub struct RenderView {
    pub render_type: RenderType,
    pub webroot: Seq<char>,
    pub name: Seq<char>,
    pub main: Seq<char>,
    pub folder: Seq<char>,
}

impl View for Render {
    type V = RenderView;

    open spec fn view(&self) -> RenderView {
        RenderView {
            render_type: self.render_type,
            webroot: self.webroot@,
            name: self.name@,
            main: self.main@,
            folder: self.folder@,
        }
    }
}

/// The text under key `k` of a table, if it is a text.
pub open spec fn text_field(t: Seq<(Cbor, Cbor)>, k: Seq<char>) -> Option<Seq<char>> {
    match last_with_text_key(t, k) {
        Some(Cbor::Text(s)) => Some(s),
        _ => None,
    }
}

/// The render a table of a module folder's `mize.toml` describes, served as
/// `t` from `folder`: its `name` and `main` must be texts, and so must its
/// `webroot` where none is given.
pub open spec fn render_of(el: Cbor, folder: Seq<char>, t: RenderType, webroot: Option<Seq<char>>) -> Option<
    RenderView,
> {
    match el {
        Cbor::Mapping(m) => {
            let w = match webroot {
                Some(w) => Some(w),
                None => text_field(m, "webroot"@),
            };
            match (text_field(m, "name"@), text_field(m, "main"@), w) {
                (Some(n), Some(mn), Some(wr)) => Some(
                    RenderView { render_type: t, webroot: wr, name: n, main: mn, folder },
                ),
                _ => None,
            }
        },
        _ => None,
    }
}

/// The renders that a list of tables describes, skipping those that do not.
pub open spec fn renders_of_list(
    list: Seq<Cbor>,
    folder: Seq<char>,
    t: RenderType,
    webroot: Option<Seq<char>>,
) -> Seq<RenderView>
    decreases list.len(),
{
    if list.len() == 0 {
        Seq::empty()
    } else {
        let rest = renders_of_list(list.drop_last(), folder, t, webroot);
        match render_of(list.last(), folder, t, webroot) {
            Some(r) => rest.push(r),
            None => rest,
        }
    }
}

/// The renders under key `k` of a module folder's configuration, where it is
/// an array.
pub open spec fn renders_under(data: Cbor, k: Seq<char>, folder: Seq<char>, t: RenderType, webroot: Option<Seq<char>>) -> Seq<
    RenderView,
> {
    match data {
        Cbor::Mapping(m) => match last_with_text_key(m, k) {
            Some(Cbor::Array(a)) => renders_of_list(a, folder, t, webroot),
            _ => Seq::empty(),
        },
        _ => Seq::empty(),
    }
}

/// The renders a module folder's configuration describes: those of its
/// `render` array, served as JSON UIs with no webroot, then those of its
/// `webcomponent` array, served as web components.
pub open spec fn renders_from_mr_spec(folder: Seq<char>, data: Cbor) -> Seq<RenderView> {
    renders_under(data, "render"@, folder, RenderType::JsonUi, Some(Seq::empty()))
        + renders_under(data, "webcomponent"@, folder, RenderType::WebComponent, None)
}

fn find_text_field(m: &Vec<(CborValue, CborValue)>, k: &str) -> (r: Option<String>)
    ensures
        match text_field(entry_models(m@), k@) {
            Some(s) => r matches Some(x) && x@ == s,
            None => r is None,
        },
{
    let key = k.to_owned();
    match crate::item::find_last_text_key(m, &key) {
        Some(i) => match &m[i].1 {
            CborValue::Text(s) => Some(s.clone()),
            _ => None,
        },
        None => None,
    }
}

fn render_from(el: &CborValue, folder: &str, t: RenderType, webroot: Option<&str>) -> (r: Option<Render>)
    ensures
        match render_of(el@, folder@, t, match webroot { Some(w) => Some(w@), None => None }) {
            Some(v) => r matches Some(x) && x@ == v,
            None => r is None,
        },
{
    match el {
        CborValue::Mapping(m) => {
            proof {
                lemma_entry_models(m@);
            }
            let w = match webroot {
                Some(w) => Some(w.to_owned()),
                None => find_text_field(m, "webroot"),
            };
            let name = find_text_field(m, "name");
            let main = find_text_field(m, "main");
            match (name, main, w) {
                (Some(n), Some(mn), Some(wr)) => Some(
                    Render { render_type: t, webroot: wr, name: n, main: mn, folder: folder.to_owned() },
                ),
                _ => None,
            }
        },
        _ => None,
    }
}

fn renders_from_list(list: &Vec<CborValue>, folder: &str, t: RenderType, webroot: Option<&str>, out: &mut Vec<Render>)
    ensures
        Seq::new(final(out)@.len(), |i: int| final(out)@[i]@) == Seq::new(old(out)@.len(), |i: int| old(out)@[i]@)
            + renders_of_list(models(list@), folder@, t, match webroot { Some(w) => Some(w@), None => None }),
{
    let ghost wv = match webroot {
        Some(w) => Some(w@),
        None => None,
    };
    let ghost start = Seq::new(out@.len(), |i: int| out@[i]@);
    let ghost ms = models(list@);
    proof {
        lemma_models(list@);
        assert(ms.take(0) =~= Seq::<Cbor>::empty());
    }
    let mut i: usize = 0;
    while i < list.len()
        invariant
            i <= list@.len(),
            ms == models(list@),
            ms.len() == list@.len(),
            forall|j: int| 0 <= j < list@.len() ==> #[trigger] ms[j] == model(list@[j]),
            wv == match webroot { Some(w) => Some(w@), None => None },
            Seq::new(out@.len(), |j: int| out@[j]@) == start + renders_of_list(ms.take(i as int), folder@, t, wv),
        decreases list@.len() - i,
    {
        let ghost before = Seq::new(out@.len(), |j: int| out@[j]@);
        proof {
            assert(ms.take(i + 1).drop_last() =~= ms.take(i as int));
            assert(ms.take(i + 1).last() == ms[i as int]);
        }
        match render_from(&list[i], folder, t, webroot) {
            Some(r) => {
                out.push(r);
                assert(Seq::new(out@.len(), |j: int| out@[j]@) =~= before.push(out@[out@.len() - 1]@));
            },
            None => {},
        }
        i = i + 1;
    }
    assert(ms.take(ms.len() as int) =~= ms);
}

fn renders_under_key(data: &CborValue, k: &str, folder: &str, t: RenderType, webroot: Option<&str>, out: &mut Vec<Render>)
    ensures
        Seq::new(final(out)@.len(), |i: int| final(out)@[i]@) == Seq::new(old(out)@.len(), |i: int| old(out)@[i]@)
            + renders_under(data@, k@, folder@, t, match webroot { Some(w) => Some(w@), None => None }),
{
    match data {
        CborValue::Mapping(m) => {
            proof {
                lemma_entry_models(m@);
            }
            let key = k.to_owned();
            match crate::item::find_last_text_key(m, &key) {
                Some(i) => match &m[i].1 {
                    CborValue::Array(a) => {
                        proof {
                            lemma_models(a@);
                        }
                        renders_from_list(a, folder, t, webroot, out);
                    },
                    _ => {
                        assert(Seq::new(out@.len(), |j: int| out@[j]@) =~= Seq::new(out@.len(), |j: int| out@[j]@) + Seq::<RenderView>::empty());
                    },
                },
                None => {
                    assert(Seq::new(out@.len(), |j: int| out@[j]@) =~= Seq::new(out@.len(), |j: int| out@[j]@) + Seq::<RenderView>::empty());
                },
            }
        },
        _ => {
            assert(Seq::new(out@.len(), |j: int| out@[j]@) =~= Seq::new(out@.len(), |j: int| out@[j]@) + Seq::<RenderView>::empty());
        },
    }
}

/// The renders a module folder's configuration describes (see
/// `renders_from_mr_spec`); `folder` is the name of the module folder.
pub fn renders_from_mr(folder: &str, data: &CborValue) -> (r: Vec<Render>)
    ensures
        Seq::new(r@.len(), |i: int| r@[i]@) == renders_from_mr_spec(folder@, data@),
{
    let mut out: Vec<Render> = Vec::new();
    assert(Seq::new(out@.len(), |i: int| out@[i]@) =~= Seq::<RenderView>::empty());
    renders_under_key(data, "render", folder, RenderType::JsonUi, Some(""), &mut out);
    proof {
        reveal_strlit("");
        assert(""@ =~= Seq::<char>::empty());
    }
    renders_under_key(data, "webcomponent", folder, RenderType::WebComponent, None, &mut out);
    assert(Seq::new(out@.len(), |i: int| out@[i]@) =~= renders_from_mr_spec(folder@, data@));
    out
}

} // verus!
