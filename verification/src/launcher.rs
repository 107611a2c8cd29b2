//! The application launcher: desktop entries, the application index, fuzzy
//! search over it, and the command line that starts an application.

use nucleo_matcher::Matcher;
use vstd::prelude::*;
use vstd::utf8::encode_utf8;

use crate::ipc::{clone_opt_string, opt_view};
use crate::text::{
    chars_equal,
    is_ws,
    ws_scan,
    has_prefix,
    lemma_lex_irreflexive,
    lemma_lex_total,
    lemma_lex_transitive,
    lex_less,
    lex_lt,
    has_suffix_char,
    range_equals,
    split_whitespace,
    split_ws,
    string_of,
    views,
    second_field,
    second_field_bounds,
    str_chars,
    string_from,
    trim,
    trim_bounds,
};

verus! {

/// An installed application.
#[derive(Debug)]
pub struct AppInfo {
    pub name: String,
    pub exec_line: String,
    pub icon: Option<String>,
}

/// The abstract value of an [`AppInfo`].
pub struct AppInfoView {
    pub name: Seq<char>,
    pub exec_line: Seq<char>,
    pub icon: Option<Seq<char>>,
}

impl View for AppInfo {
    type V = AppInfoView;

    open spec fn view(&self) -> AppInfoView {
        AppInfoView { name: self.name@, exec_line: self.exec_line@, icon: opt_view(self.icon) }
    }
}

impl Clone for AppInfo {
    fn clone(&self) -> (r: Self)
        ensures
            r == *self,
    {
        AppInfo {
            name: self.name.clone(),
            exec_line: self.exec_line.clone(),
            icon: clone_opt_string(&self.icon),
        }
    }
}

/// The views of a sequence of applications.
pub open spec fn app_views(apps: Seq<AppInfo>) -> Seq<AppInfoView> {
    apps.map_values(|a: AppInfo| a@)
}

/// What has been read of a desktop file so far.
pub struct DesktopScan {
    pub name: Option<Seq<char>>,
    pub exec_line: Option<Seq<char>>,
    pub icon: Option<Seq<char>>,
    pub is_app: bool,
    pub in_entry: bool,
}

/// The value of a `Key=value` line: the text between the first and the
/// second `=`, trimmed.
pub open spec fn entry_value(t: Seq<char>) -> Seq<char> {
    trim(second_field(t, "="@))
}

/// The scan after one more line.
pub open spec fn desktop_step(st: DesktopScan, line: Seq<char>) -> DesktopScan {
    let t = trim(line);
    if t == "[Desktop Entry]"@ {
        DesktopScan { in_entry: true, ..st }
    } else {
        let in_entry = if t.len() > 0 && t[0] == '[' && t.last() == ']' {
            false
        } else {
            st.in_entry
        };
        let st = DesktopScan { in_entry, ..st };
        if !in_entry {
            st
        } else if "Type="@.is_prefix_of(t) {
            if entry_value(t) == "Application"@ {
                DesktopScan { is_app: true, ..st }
            } else {
                st
            }
        } else if "Name="@.is_prefix_of(t) && st.name is None {
            DesktopScan { name: Some(entry_value(t)), ..st }
        } else if "Exec="@.is_prefix_of(t) && st.exec_line is None {
            DesktopScan { exec_line: Some(entry_value(t)), ..st }
        } else if "Icon="@.is_prefix_of(t) && st.icon is None {
            DesktopScan { icon: Some(entry_value(t)), ..st }
        } else {
            st
        }
    }
}

/// The scan after all of `lines`.
pub open spec fn desktop_scan(lines: Seq<Seq<char>>) -> DesktopScan
    decreases lines.len(),
{
    if lines.len() == 0 {
        DesktopScan { name: None, exec_line: None, icon: None, is_app: false, in_entry: false }
    } else {
        desktop_step(desktop_scan(lines.drop_last()), lines.last())
    }
}

/// The application a desktop file describes: its `[Desktop Entry]` group
/// must say `Type=Application` and give a `Name` and an `Exec`; the first
/// `Name`, `Exec` and `Icon` of the group count.
pub open spec fn desktop_entry(lines: Seq<Seq<char>>) -> Option<AppInfoView> {
    let st = desktop_scan(lines);
    if st.is_app && st.name is Some && st.exec_line is Some {
        Some(AppInfoView { name: st.name->0, exec_line: st.exec_line->0, icon: st.icon })
    } else {
        None
    }
}

fn value_of(v: &Vec<char>, a: usize, b: usize) -> (s: String)
    requires
        a <= b <= v@.len(),
    ensures
        s@ == entry_value(v@.subrange(a as int, b as int)),
{
    let eq = str_chars("=");
    let (c, d) = second_field_bounds(v, a, b, &eq);
    let (e, f) = trim_bounds(v, c, d);
    string_from(v, e, f)
}

/// Reads the application that a desktop file (given by its lines) describes.
pub fn parse_desktop_entry(lines: &Vec<String>) -> (r: Option<AppInfo>)
    ensures
        match r {
            Some(app) => desktop_entry(lines@.map_values(|l: String| l@)) == Some(app@),
            None => desktop_entry(lines@.map_values(|l: String| l@)) is None,
        },
{
    let ghost ls = lines@.map_values(|l: String| l@);
    let header = str_chars("[Desktop Entry]");
    let type_key = str_chars("Type=");
    let name_key = str_chars("Name=");
    let exec_key = str_chars("Exec=");
    let icon_key = str_chars("Icon=");
    let application = String::from_str("Application");
    let mut name: Option<String> = None;
    let mut exec_line: Option<String> = None;
    let mut icon: Option<String> = None;
    let mut is_app = false;
    let mut in_entry = false;
    for i in 0..lines.len()
        invariant
            ls == lines@.map_values(|l: String| l@),
            header@ == "[Desktop Entry]"@,
            type_key@ == "Type="@,
            name_key@ == "Name="@,
            exec_key@ == "Exec="@,
            icon_key@ == "Icon="@,
            application@ == "Application"@,
            desktop_scan(ls.take(i as int)) == (DesktopScan {
                name: opt_view(name),
                exec_line: opt_view(exec_line),
                icon: opt_view(icon),
                is_app,
                in_entry,
            }),
    {
        let v = str_chars(lines[i].as_str());
        assert(ls.take(i + 1).drop_last() =~= ls.take(i as int));
        assert(ls.take(i + 1).last() == v@);
        assert(v@.subrange(0, v@.len() as int) =~= v@);
        let (a, b) = trim_bounds(&v, 0, v.len());
        if range_equals(&v, a, b, &header) {
            in_entry = true;
        } else {
            if b > a && v[a] == '[' && has_suffix_char(&v, a, b, ']') {
                in_entry = false;
            }
            if in_entry {
                if has_prefix(&v, a, b, &type_key) {
                    let val = value_of(&v, a, b);
                    if val == application {
                        is_app = true;
                    }
                } else if has_prefix(&v, a, b, &name_key) && name.is_none() {
                    name = Some(value_of(&v, a, b));
                } else if has_prefix(&v, a, b, &exec_key) && exec_line.is_none() {
                    exec_line = Some(value_of(&v, a, b));
                } else if has_prefix(&v, a, b, &icon_key) && icon.is_none() {
                    icon = Some(value_of(&v, a, b));
                }
            }
        }
    }
    assert(ls.take(lines@.len() as int) =~= ls);
    if is_app && name.is_some() && exec_line.is_some() {
        Some(AppInfo { name: name.unwrap(), exec_line: exec_line.unwrap(), icon })
    } else {
        None
    }
}


/// The first application in `apps` named `n`.
pub open spec fn first_named(apps: Seq<AppInfoView>, n: Seq<char>) -> Option<AppInfoView>
    decreases apps.len(),
{
    if apps.len() == 0 {
        None
    } else if apps[0].name == n {
        Some(apps[0])
    } else {
        first_named(apps.drop_first(), n)
    }
}

/// Whether the names in `r` strictly increase in code point order.
pub open spec fn names_sorted(r: Seq<AppInfoView>) -> bool {
    forall|i: int, j: int| 0 <= i < j < r.len() ==> lex_lt(#[trigger] r[i].name, #[trigger] r[j].name)
}

/// Whether `r` is the index of `apps`: sorted by name, one application per
/// name, and for each name the first application in `apps` that bears it
/// (what a stable sort by name followed by removing repeated names gives).
pub open spec fn is_index_of(r: Seq<AppInfoView>, apps: Seq<AppInfoView>) -> bool {
    &&& names_sorted(r)
    &&& forall|i: int| 0 <= i < r.len() ==> first_named(apps, #[trigger] r[i].name) == Some(r[i])
    &&& forall|j: int|
        0 <= j < apps.len() ==> exists|i: int| 0 <= i < r.len() && r[i].name == #[trigger] apps[j].name
}

proof fn lemma_first_named_push(s: Seq<AppInfoView>, x: AppInfoView, n: Seq<char>)
    ensures
        first_named(s.push(x), n) == match first_named(s, n) {
            Some(v) => Some(v),
            None => if x.name == n {
                Some(x)
            } else {
                None
            },
        },
    decreases s.len(),
{
    if s.len() > 0 {
        assert(s.push(x)[0] == s[0]);
        assert(s.push(x).drop_first() =~= s.drop_first().push(x));
        lemma_first_named_push(s.drop_first(), x, n);
    } else {
        assert(s.push(x)[0] == x);
        assert(s.push(x).drop_first() =~= Seq::<AppInfoView>::empty());
        assert(first_named(s.push(x).drop_first(), n) is None);
        assert(first_named(s, n) is None);
    }
}

proof fn lemma_first_named_some(s: Seq<AppInfoView>, n: Seq<char>)
    requires
        first_named(s, n) is Some,
    ensures
        exists|j: int| 0 <= j < s.len() && s[j].name == n,
    decreases s.len(),
{
    if s[0].name != n {
        lemma_first_named_some(s.drop_first(), n);
        let j = choose|j: int| 0 <= j < s.drop_first().len() && s.drop_first()[j].name == n;
        assert(s[j + 1].name == n);
    }
}

/// Sorts applications by name and keeps, of each name, the first application
/// in `apps` that bears it.
pub fn index_apps(apps: Vec<AppInfo>) -> (r: Vec<AppInfo>)
    ensures
        is_index_of(app_views(r@), app_views(apps@)),
{
    let ghost av = app_views(apps@);
    let mut r: Vec<AppInfo> = Vec::new();
    let mut keys: Vec<Vec<char>> = Vec::new();
    for i in 0..apps.len()
        invariant
            av == app_views(apps@),
            keys@.len() == r@.len(),
            forall|k: int| 0 <= k < r@.len() ==> (#[trigger] keys@[k])@ == r@[k].name@,
            is_index_of(app_views(r@), av.take(i as int)),
    {
        let x = &apps[i];
        let key = str_chars(x.name.as_str());
        let ghost rv = app_views(r@);
        let ghost pre = av.take(i as int);
        assert(av.take(i + 1) =~= pre.push(x@));
        assert forall|n: Seq<char>|
            #![trigger first_named(av.take(i + 1), n)]
            first_named(av.take(i + 1), n) == match first_named(pre, n) {
                Some(v) => Some(v),
                None => if x@.name == n {
                    Some(x@)
                } else {
                    None
                },
            } by {
            lemma_first_named_push(pre, x@, n);
        }
        let mut j: usize = 0;
        let mut dup = false;
        let mut before = false;
        while j < keys.len() && !before && !dup
            invariant
                keys@.len() == r@.len(),
                rv == app_views(r@),
                key@ == x@.name,
                forall|k: int| 0 <= k < r@.len() ==> (#[trigger] keys@[k])@ == r@[k].name@,
                0 <= j <= keys@.len(),
                forall|k: int| 0 <= k < j ==> lex_lt(#[trigger] rv[k].name, x@.name),
                dup ==> j < keys@.len() && rv[j as int].name == x@.name,
                before ==> j < keys@.len() && lex_lt(x@.name, rv[j as int].name),
            decreases keys@.len() - j + (if before || dup {
                0int
            } else {
                1int
            }),
        {
            if chars_equal(&keys[j], &key) {
                dup = true;
            } else if lex_less(&key, &keys[j]) {
                before = true;
            } else {
                proof {
                    lemma_lex_total(rv[j as int].name, x@.name);
                }
                j += 1;
            }
        }
        if dup {
            assert forall|k: int| 0 <= k < rv.len() implies first_named(
                av.take(i + 1),
                #[trigger] rv[k].name,
            ) == Some(rv[k]) by {}
            assert forall|m: int| 0 <= m < i + 1 implies exists|k: int|
                0 <= k < rv.len() && rv[k].name == #[trigger] av.take(i + 1)[m].name by {
                if m < i {
                    assert(av.take(i + 1)[m] == pre[m]);
                } else {
                    assert(rv[j as int].name == av.take(i + 1)[m].name);
                }
            }
        } else {
            let ghost xv = x@;
            proof {
                assert forall|k: int| j <= k < rv.len() implies lex_lt(
                    xv.name,
                    #[trigger] rv[k].name,
                ) by {
                    if k > j {
                        lemma_lex_transitive(xv.name, rv[j as int].name, rv[k].name);
                    }
                }
                assert forall|k: int| 0 <= k < rv.len() implies rv[k].name != xv.name by {
                    if k >= j {
                        lemma_lex_irreflexive(xv.name);
                    } else {
                        lemma_lex_irreflexive(xv.name);
                    }
                }
                if first_named(pre, xv.name) is Some {
                    lemma_first_named_some(pre, xv.name);
                    let m = choose|m: int| 0 <= m < pre.len() && pre[m].name == xv.name;
                    assert(exists|k: int| 0 <= k < rv.len() && rv[k].name == pre[m].name);
                }
                assert(first_named(av.take(i + 1), xv.name) == Some(xv));
            }
            let ghost old_keys = keys@;
            r.insert(j, x.clone());
            keys.insert(j, key);
            let ghost nv = app_views(r@);
            assert(nv =~= rv.insert(j as int, xv));
            assert forall|a: int, b: int| 0 <= a < b < nv.len() implies lex_lt(
                #[trigger] nv[a].name,
                #[trigger] nv[b].name,
            ) by {
                if b < j {
                } else if a < j && b == j {
                } else if a < j {
                    lemma_lex_transitive(rv[a].name, xv.name, rv[b - 1].name);
                } else if a == j {
                } else {
                }
            }
            assert forall|k: int| 0 <= k < nv.len() implies first_named(
                av.take(i + 1),
                #[trigger] nv[k].name,
            ) == Some(nv[k]) by {
                if k < j {
                    assert(nv[k] == rv[k]);
                } else if k > j {
                    assert(nv[k] == rv[k - 1]);
                }
            }
            assert forall|m: int| 0 <= m < i + 1 implies exists|k: int|
                0 <= k < nv.len() && nv[k].name == #[trigger] av.take(i + 1)[m].name by {
                if m < i {
                    assert(av.take(i + 1)[m] == pre[m]);
                    let k = choose|k: int| 0 <= k < rv.len() && rv[k].name == pre[m].name;
                    if k < j {
                        assert(nv[k] == rv[k]);
                    } else {
                        assert(nv[k + 1] == rv[k]);
                    }
                } else {
                    assert(nv[j as int].name == av.take(i + 1)[m].name);
                }
            }
            assert forall|k: int| 0 <= k < r@.len() implies (#[trigger] keys@[k])@
                == r@[k].name@ by {
                if k < j {
                } else if k > j {
                    assert(keys@[k] == old_keys[k - 1]);
                }
            }
        }
    }
    assert(av.take(apps@.len() as int) =~= av);
    r
}

/// In an index no two applications share a name.
pub proof fn lemma_index_names_distinct(r: Seq<AppInfoView>, apps: Seq<AppInfoView>)
    requires
        is_index_of(r, apps),
    ensures
        forall|i: int, j: int| 0 <= i < j < r.len() ==> r[i].name != r[j].name,
{
    assert forall|i: int, j: int| 0 <= i < j < r.len() implies r[i].name != r[j].name by {
        lemma_lex_irreflexive(r[i].name);
        assert(lex_lt(r[i].name, r[j].name));
    }
}


/// Whether a word of an `Exec` line is kept: field codes such as `%u`,
/// `%F` (words starting with `%`) are dropped.
pub open spec fn keeps_word(w: Seq<char>) -> bool {
    !(w.len() > 0 && w[0] == '%')
}

/// The kept words of `ws`, in order.
pub open spec fn kept_words(ws: Seq<Seq<char>>) -> Seq<Seq<char>>
    decreases ws.len(),
{
    if ws.len() == 0 {
        seq![]
    } else if keeps_word(ws.last()) {
        kept_words(ws.drop_last()).push(ws.last())
    } else {
        kept_words(ws.drop_last())
    }
}

/// The words of `ws` joined with single spaces.
pub open spec fn join_spaced(ws: Seq<Seq<char>>) -> Seq<char>
    decreases ws.len(),
{
    if ws.len() == 0 {
        seq![]
    } else if ws.len() == 1 {
        ws[0]
    } else {
        join_spaced(ws.drop_last()) + seq![' '] + ws.last()
    }
}

/// An `Exec` line without its field codes, words joined by single spaces.
pub open spec fn clean_exec_spec(e: Seq<char>) -> Seq<char> {
    join_spaced(kept_words(split_ws(e)))
}

/// The `Exec` line of an application without its field codes.
pub fn clean_exec(exec_line: &str) -> (s: String)
    ensures
        s@ == clean_exec_spec(exec_line@),
{
    let v = str_chars(exec_line);
    let words = split_whitespace(&v, 0, v.len());
    assert(v@.subrange(0, v@.len() as int) =~= exec_line@);
    let ghost wv = views(words@);
    let mut s = String::new();
    let mut first = true;
    for i in 0..words.len()
        invariant
            wv == views(words@),
            s@ == join_spaced(kept_words(wv.take(i as int))),
            first == (kept_words(wv.take(i as int)).len() == 0),
    {
        let w = &words[i];
        assert(wv.take(i + 1).drop_last() =~= wv.take(i as int));
        assert(wv.take(i + 1).last() == w@);
        let keep = !(w.len() > 0 && w[0] == '%');
        if keep {
            let ghost prev = kept_words(wv.take(i as int));
            if !first {
                s.push(' ');
            }
            let ws = string_of(w);
            s.append(ws.as_str());
            assert(kept_words(wv.take(i + 1)) =~= prev.push(w@));
            assert(kept_words(wv.take(i + 1)).drop_last() =~= prev);
            assert(s@ =~= join_spaced(kept_words(wv.take(i + 1))));
            first = false;
        }
    }
    assert(wv.take(words@.len() as int) =~= wv);
    s
}

/// Whether `w` is a word: non-empty, without white space.
pub open spec fn is_word(w: Seq<char>) -> bool {
    w.len() > 0 && forall|i: int| 0 <= i < w.len() ==> !is_ws(#[trigger] w[i])
}

proof fn lemma_scan_words(s: Seq<char>)
    ensures
        forall|i: int| 0 <= i < ws_scan(s).0.len() ==> is_word(#[trigger] ws_scan(s).0[i]),
        forall|i: int| 0 <= i < ws_scan(s).1.len() ==> !is_ws(#[trigger] ws_scan(s).1[i]),
    decreases s.len(),
{
    if s.len() > 0 {
        lemma_scan_words(s.drop_last());
        let prev = ws_scan(s.drop_last());
        if !is_ws(s.last()) {
            assert forall|i: int| 0 <= i < ws_scan(s).1.len() implies !is_ws(
                #[trigger] ws_scan(s).1[i],
            ) by {
                if i < prev.1.len() {
                    assert(ws_scan(s).1[i] == prev.1[i]);
                }
            }
        }
    }
}

proof fn lemma_split_words(s: Seq<char>)
    ensures
        forall|i: int| 0 <= i < split_ws(s).len() ==> is_word(#[trigger] split_ws(s)[i]),
{
    lemma_scan_words(s);
}

proof fn lemma_scan_after_space(s: Seq<char>, w: Seq<char>)
    requires
        forall|i: int| 0 <= i < w.len() ==> !is_ws(#[trigger] w[i]),
    ensures
        ws_scan(s + seq![' '] + w) == (split_ws(s), w),
    decreases w.len(),
{
    let t = s + seq![' '] + w;
    if w.len() == 0 {
        assert(t.drop_last() =~= s);
        assert(is_ws(' '));
    } else {
        let w0 = w.drop_last();
        assert(t.drop_last() =~= s + seq![' '] + w0);
        lemma_scan_after_space(s, w0);
        assert(t.last() == w.last());
        assert(!is_ws(w[w.len() - 1]));
        assert(w0.push(w.last()) =~= w);
    }
}

proof fn lemma_scan_word(w: Seq<char>)
    requires
        forall|i: int| 0 <= i < w.len() ==> !is_ws(#[trigger] w[i]),
    ensures
        ws_scan(w) == (Seq::<Seq<char>>::empty(), w),
    decreases w.len(),
{
    if w.len() > 0 {
        lemma_scan_word(w.drop_last());
        assert(!is_ws(w[w.len() - 1]));
        assert(w.drop_last().push(w.last()) =~= w);
    } else {
        assert(w =~= Seq::<char>::empty());
    }
}

/// Joining words with single spaces and splitting the result again gives
/// the words back.
pub proof fn lemma_split_join(ws: Seq<Seq<char>>)
    requires
        forall|i: int| 0 <= i < ws.len() ==> is_word(#[trigger] ws[i]),
    ensures
        split_ws(join_spaced(ws)) == ws,
    decreases ws.len(),
{
    if ws.len() == 1 {
        assert(is_word(ws[0]));
        lemma_scan_word(ws[0]);
        assert(seq![ws[0]] =~= ws);
    } else if ws.len() > 1 {
        let w = ws.last();
        assert(is_word(ws[ws.len() - 1]));
        lemma_split_join(ws.drop_last());
        lemma_scan_after_space(join_spaced(ws.drop_last()), w);
        assert(ws.drop_last().push(w) =~= ws);
    } else {
        assert(ws =~= Seq::<Seq<char>>::empty());
        assert(ws_scan(Seq::<char>::empty()) == (Seq::<Seq<char>>::empty(), Seq::<char>::empty()));
    }
}

proof fn lemma_kept_words(ws: Seq<Seq<char>>)
    ensures
        forall|i: int| 0 <= i < kept_words(ws).len() ==> keeps_word(#[trigger] kept_words(ws)[i]),
        (forall|i: int| 0 <= i < ws.len() ==> is_word(#[trigger] ws[i])) ==> forall|i: int|
            0 <= i < kept_words(ws).len() ==> is_word(#[trigger] kept_words(ws)[i]),
        (forall|i: int| 0 <= i < ws.len() ==> keeps_word(#[trigger] ws[i])) ==> kept_words(ws)
            == ws,
    decreases ws.len(),
{
    if ws.len() > 0 {
        lemma_kept_words(ws.drop_last());
        let k = kept_words(ws.drop_last());
        if keeps_word(ws.last()) {
            assert forall|i: int| 0 <= i < kept_words(ws).len() implies keeps_word(
                #[trigger] kept_words(ws)[i],
            ) by {
                if i < k.len() {
                    assert(kept_words(ws)[i] == k[i]);
                }
            }
            if forall|i: int| 0 <= i < ws.len() ==> is_word(#[trigger] ws[i]) {
                assert(is_word(ws[ws.len() - 1]));
                assert forall|i: int| 0 <= i < kept_words(ws).len() implies is_word(
                    #[trigger] kept_words(ws)[i],
                ) by {
                    if i < k.len() {
                        assert(kept_words(ws)[i] == k[i]);
                    }
                }
            }
            if forall|i: int| 0 <= i < ws.len() ==> keeps_word(#[trigger] ws[i]) {
                assert forall|i: int| 0 <= i < ws.drop_last().len() implies keeps_word(
                    #[trigger] ws.drop_last()[i],
                ) by {
                    assert(ws.drop_last()[i] == ws[i]);
                }
                assert(ws.drop_last().push(ws.last()) =~= ws);
            }
        } else {
            assert(!keeps_word(ws[ws.len() - 1]));
        }
        if forall|i: int| 0 <= i < ws.len() ==> is_word(#[trigger] ws[i]) {
            assert forall|i: int| 0 <= i < ws.drop_last().len() implies is_word(
                #[trigger] ws.drop_last()[i],
            ) by {
                assert(ws.drop_last()[i] == ws[i]);
            }
        }
    } else {
        assert(kept_words(ws) =~= ws);
    }
}

/// The cleaned `Exec` line holds no field code, and cleaning it again
/// changes nothing.
pub proof fn lemma_clean_exec_idempotent(e: Seq<char>)
    ensures
        forall|i: int|
            0 <= i < split_ws(clean_exec_spec(e)).len() ==> keeps_word(
                #[trigger] split_ws(clean_exec_spec(e))[i],
            ),
        clean_exec_spec(clean_exec_spec(e)) == clean_exec_spec(e),
{
    let ws = split_ws(e);
    lemma_split_words(e);
    lemma_kept_words(ws);
    let k = kept_words(ws);
    lemma_split_join(k);
    lemma_kept_words(k);
}

/// The shell command line that starts `app` detached, output discarded.
pub open spec fn launch_command_spec(exec_line: Seq<char>) -> Seq<char> {
    "nohup "@ + clean_exec_spec(exec_line) + " >/dev/null 2>&1 &"@
}

proof fn lemma_kept_words_filter(ws: Seq<Seq<char>>, p: spec_fn(Seq<char>) -> bool)
    requires
        forall|w: Seq<char>| #[trigger] p(w) == keeps_word(w),
    ensures
        kept_words(ws) == ws.filter(p),
    decreases ws.len(),
{
    reveal(Seq::filter);
    if ws.len() > 0 {
        lemma_kept_words_filter(ws.drop_last(), p);
        assert(p(ws.last()) == keeps_word(ws.last()));
    }
}

/// The command that launches an application runs every word of its `Exec`
/// line that is not a field code (a word starting with `%`), all of them and
/// in their order, joined by single spaces, after `nohup ` and before the
/// redirection that discards its output; splitting the command's middle at
/// white space gives back exactly those words.
pub proof fn lemma_launch_command_keeps_arguments(exec_line: Seq<char>)
    ensures
        ({
            let kept = split_ws(exec_line).filter(|w: Seq<char>| !(w.len() > 0 && w[0] == '%'));
            &&& launch_command_spec(exec_line) == "nohup "@ + join_spaced(kept) + " >/dev/null 2>&1 &"@
            &&& split_ws(join_spaced(kept)) == kept
        }),
{
    let p = |w: Seq<char>| !(w.len() > 0 && w[0] == '%');
    let ws = split_ws(exec_line);
    lemma_kept_words_filter(ws, p);
    lemma_split_words(exec_line);
    lemma_kept_words(ws);
    lemma_split_join(kept_words(ws));
    assert(ws.filter(|w: Seq<char>| !(w.len() > 0 && w[0] == '%')) == ws.filter(p));
}

/// The shell command line (for `sh -c`) that starts `app` detached from the
/// shell, with its output discarded.
pub fn launch_command(app: &AppInfo) -> (c: String)
    ensures
        c@ == launch_command_spec(app.exec_line@),
{
    let mut c = String::from_str("nohup ");
    let e = clean_exec(app.exec_line.as_str());
    c.append(e.as_str());
    c.append(" >/dev/null 2>&1 &");
    c
}

/// A fuzzy matcher with the default scoring configuration.
#[verifier::external_type_specification]
#[verifier::external_body]
pub struct ExMatcher(Matcher);

/// `nucleo_matcher::Matcher::new(Config::DEFAULT)`: a matcher with the default
/// configuration. Nothing is stated of the value; it is only handed back to
/// [`rank_names`].
#[verifier::external_body]
fn default_matcher() -> Matcher {
    Matcher::new(nucleo_matcher::Config::DEFAULT)
}

/// The length in bytes of the UTF-8 encoding of `s`.
pub open spec fn utf8_len(s: Seq<char>) -> nat {
    encode_utf8(s).len()
}

/// The names that match `query` (parsed by `Pattern::parse` ignoring case,
/// with smart normalization), best score first, as
/// `Pattern::match_list` ranks them with a default-configured matcher.
pub uninterp spec fn fuzzy_ranking(query: Seq<char>, names: Seq<Seq<char>>) -> Seq<Seq<char>>;

/// `nucleo_matcher::pattern::Pattern::parse(query, CaseMatching::Ignore,
/// Normalization::Smart).match_list(names, matcher)`, each hit mapped to its
/// name. The result is the ranking named [`fuzzy_ranking`] of the query and
/// the names: the matcher's configuration is always the default one and its
/// case setting is overwritten for each pattern atom, so nothing else enters.
/// Each hit is one of the names, and no name is hit twice: `match_list`
/// filters the items it was given, each kept at most once, and sorts them,
/// so the hits stand for distinct positions of `names`. The matcher asserts
/// that a name's text, which it keeps as UTF-8 bytes or as characters, has at
/// most `u32::MAX` units; `requires` leaves out names of more than
/// `u32::MAX` bytes, where that assertion could fail. The scores are dropped.
#[verifier::external_body]
fn rank_names(matcher: &mut Matcher, query: &str, names: &Vec<String>) -> (r: Vec<String>)
    requires
        forall|i: int| 0 <= i < names@.len() ==> utf8_len((#[trigger] names@[i])@) <= u32::MAX,
    ensures
        r@.map_values(|n: String| n@) == fuzzy_ranking(
            query@,
            names@.map_values(|n: String| n@),
        ),
        (exists|pos: Seq<int>|
            #![trigger pos.len()]
            pos.len() == r@.len() && (forall|i: int|
                0 <= i < r@.len() ==> 0 <= #[trigger] pos[i] < names@.len() && r@[i]@ == names@[pos[i]]@)
                && (forall|i: int|
                0 <= i < r@.len() ==> forall|j: int|
                    i < j < r@.len() ==> #[trigger] pos[i] != #[trigger] pos[j])),
{
    let pattern = nucleo_matcher::pattern::Pattern::parse(
        query,
        nucleo_matcher::pattern::CaseMatching::Ignore,
        nucleo_matcher::pattern::Normalization::Smart,
    );
    let hits = pattern.match_list(names.iter().map(|n| n.as_str()), matcher);
    hits.into_iter().map(|(name, _score)| name.to_string()).collect()
}

/// For each name of `ranked` in turn, the first application of `apps` with
/// that name; names that no application bears are passed over.
pub open spec fn select_ranked_spec(apps: Seq<AppInfoView>, ranked: Seq<Seq<char>>) -> Seq<
    AppInfoView,
>
    decreases ranked.len(),
{
    if ranked.len() == 0 {
        seq![]
    } else {
        let prev = select_ranked_spec(apps, ranked.drop_last());
        match first_named(apps, ranked.last()) {
            Some(a) => prev.push(a),
            None => prev,
        }
    }
}

/// Whether no two applications of `apps` share a name.
pub open spec fn names_distinct(apps: Seq<AppInfoView>) -> bool {
    forall|i: int, j: int| 0 <= i < j < apps.len() ==> #[trigger] apps[i].name != #[trigger] apps[j].name
}

proof fn lemma_first_named_name(apps: Seq<AppInfoView>, n: Seq<char>)
    ensures
        first_named(apps, n) matches Some(a) ==> a.name == n,
    decreases apps.len(),
{
    if apps.len() > 0 && apps[0].name != n {
        lemma_first_named_name(apps.drop_first(), n);
    }
}

proof fn lemma_select_names_ranked(apps: Seq<AppInfoView>, ranked: Seq<Seq<char>>)
    ensures
        forall|k: int|
            0 <= k < select_ranked_spec(apps, ranked).len() ==> exists|m: int|
                0 <= m < ranked.len() && #[trigger] select_ranked_spec(apps, ranked)[k].name
                    == ranked[m],
    decreases ranked.len(),
{
    if ranked.len() > 0 {
        let prev = select_ranked_spec(apps, ranked.drop_last());
        lemma_select_names_ranked(apps, ranked.drop_last());
        lemma_first_named_name(apps, ranked.last());
        let out = select_ranked_spec(apps, ranked);
        assert forall|k: int| 0 <= k < out.len() implies exists|m: int|
            0 <= m < ranked.len() && #[trigger] out[k].name == ranked[m] by {
            if k < prev.len() {
                assert(out[k] == prev[k]);
                let m = choose|m: int| 0 <= m < ranked.drop_last().len() && prev[k].name == ranked.drop_last()[m];
                assert(ranked[m] == ranked.drop_last()[m]);
            } else {
                assert(out[k].name == ranked[ranked.len() - 1]);
            }
        }
    }
}

/// Ranked names that are all different select applications whose names are
/// all different.
proof fn lemma_select_distinct(apps: Seq<AppInfoView>, ranked: Seq<Seq<char>>)
    requires
        forall|i: int, j: int| 0 <= i < j < ranked.len() ==> #[trigger] ranked[i] != #[trigger] ranked[j],
    ensures
        names_distinct(select_ranked_spec(apps, ranked)),
    decreases ranked.len(),
{
    if ranked.len() > 0 {
        let rp = ranked.drop_last();
        assert forall|i: int, j: int| 0 <= i < j < rp.len() implies #[trigger] rp[i] != #[trigger] rp[j] by {
            assert(rp[i] == ranked[i] && rp[j] == ranked[j]);
        }
        lemma_select_distinct(apps, rp);
        lemma_select_names_ranked(apps, rp);
        lemma_first_named_name(apps, ranked.last());
        let prev = select_ranked_spec(apps, rp);
        let out = select_ranked_spec(apps, ranked);
        if first_named(apps, ranked.last()) is Some {
            assert forall|i: int, j: int| 0 <= i < j < out.len() implies #[trigger] out[i].name
                != #[trigger] out[j].name by {
                if j < prev.len() {
                    assert(out[i] == prev[i] && out[j] == prev[j]);
                } else {
                    assert(out[i] == prev[i]);
                    let m = choose|m: int| 0 <= m < rp.len() && #[trigger] prev[i].name == rp[m];
                    assert(rp[m] == ranked[m]);
                    assert(out[j].name == ranked[ranked.len() - 1]);
                }
            }
        }
    }
}

fn first_app_named(apps: &Vec<AppInfo>, name: &String) -> (r: Option<usize>)
    ensures
        match r {
            Some(i) => i < apps@.len() && first_named(app_views(apps@), name@) == Some(
                apps@[i as int]@,
            ),
            None => first_named(app_views(apps@), name@) is None,
        },
{
    let ghost av = app_views(apps@);
    let mut i: usize = 0;
    assert(av.skip(0) =~= av);
    while i < apps.len()
        invariant
            av == app_views(apps@),
            0 <= i <= apps@.len(),
            first_named(av, name@) == first_named(av.skip(i as int), name@),
        decreases apps@.len() - i,
    {
        assert(av.skip(i as int)[0] == apps@[i as int]@);
        if apps[i].name == *name {
            return Some(i);
        }
        assert(av.skip(i as int).drop_first() =~= av.skip(i + 1));
        i += 1;
    }
    None
}

/// The applications that `ranked` names, in ranked order.
pub fn select_ranked(apps: &Vec<AppInfo>, ranked: &Vec<String>) -> (r: Vec<AppInfo>)
    ensures
        app_views(r@) == select_ranked_spec(app_views(apps@), ranked@.map_values(|n: String| n@)),
{
    let ghost rk = ranked@.map_values(|n: String| n@);
    let mut r: Vec<AppInfo> = Vec::new();
    for i in 0..ranked.len()
        invariant
            rk == ranked@.map_values(|n: String| n@),
            app_views(r@) == select_ranked_spec(app_views(apps@), rk.take(i as int)),
    {
        assert(rk.take(i + 1).drop_last() =~= rk.take(i as int));
        assert(rk.take(i + 1).last() == ranked@[i as int]@);
        match first_app_named(apps, &ranked[i]) {
            Some(k) => {
                let ghost old_r = r@;
                r.push(apps[k].clone());
                assert(app_views(r@) =~= app_views(old_r).push(apps@[k as int]@));
            },
            None => {},
        }
    }
    assert(rk.take(ranked@.len() as int) =~= rk);
    r
}

/// The indexed applications and the matcher that searches them.
pub struct Launcher {
    pub apps: Vec<AppInfo>,
    matcher: Matcher,
}

impl View for Launcher {
    type V = Seq<AppInfoView>;

    /// The indexed applications.
    closed spec fn view(&self) -> Seq<AppInfoView> {
        app_views(self.apps@)
    }
}

/// The names of `apps`, in order.
pub open spec fn app_names(apps: Seq<AppInfoView>) -> Seq<Seq<char>> {
    apps.map_values(|a: AppInfoView| a.name)
}

impl Launcher {
    /// A launcher with no applications indexed yet.
    pub fn new() -> (l: Self)
        ensures
            l@.len() == 0,
    {
        Launcher { apps: Vec::new(), matcher: default_matcher() }
    }

    /// Replaces the indexed applications.
    pub fn set_apps(&mut self, apps: Vec<AppInfo>)
        ensures
            final(self)@ == app_views(apps@),
    {
        self.apps = apps;
    }

    /// Fuzzy search: every application for an empty query, else the
    /// applications whose names match, best match first.
    pub fn search(&mut self, query: &str) -> (r: Vec<AppInfo>)
        requires
            forall|i: int|
                0 <= i < old(self)@.len() ==> utf8_len((#[trigger] old(self)@[i]).name) <= u32::MAX,
        ensures
            final(self)@ == old(self)@,
            query@.len() == 0 ==> app_views(r@) == old(self)@,
            query@.len() > 0 ==> app_views(r@) == select_ranked_spec(
                old(self)@,
                fuzzy_ranking(query@, app_names(old(self)@)),
            ),
            names_distinct(old(self)@) ==> names_distinct(app_views(r@)),
    {
        assert forall|i: int| 0 <= i < self.apps@.len() implies utf8_len(
            (#[trigger] self.apps@[i]).name@,
        ) <= u32::MAX by {
            assert(self@[i] == self.apps@[i]@);
        }
        if query.is_empty() {
            let mut r: Vec<AppInfo> = Vec::new();
            for i in 0..self.apps.len()
                invariant
                    app_views(r@) == app_views(self.apps@).take(i as int),
            {
                let ghost old_r = r@;
                r.push(self.apps[i].clone());
                assert(app_views(r@) =~= app_views(old_r).push(self.apps@[i as int]@));
                assert(app_views(r@) =~= app_views(self.apps@).take(i + 1));
            }
            assert(app_views(self.apps@).take(self.apps@.len() as int) =~= app_views(self.apps@));
            return r;
        }
        let mut names: Vec<String> = Vec::new();
        for i in 0..self.apps.len()
            invariant
                names@.map_values(|n: String| n@) == app_names(app_views(self.apps@)).take(i as int),
                forall|k: int| 0 <= k < names@.len() ==> utf8_len((#[trigger] names@[k])@) <= u32::MAX,
                forall|i: int|
                    0 <= i < self.apps@.len() ==> utf8_len((#[trigger] self.apps@[i]).name@) <= u32::MAX,
        {
            let ghost old_n = names@;
            names.push(self.apps[i].name.clone());
            assert(names@.map_values(|n: String| n@) =~= old_n.map_values(|n: String| n@).push(
                self.apps@[i as int].name@,
            ));
            assert(names@.map_values(|n: String| n@) =~= app_names(app_views(self.apps@)).take(
                i + 1,
            ));
        }
        assert(app_names(app_views(self.apps@)).take(self.apps@.len() as int) =~= app_names(
            app_views(self.apps@),
        ));
        let ranked = rank_names(&mut self.matcher, query, &names);
        proof {
            let nv = names@.map_values(|n: String| n@);
            let rv = ranked@.map_values(|n: String| n@);
            if names_distinct(self@) {
                let pos = choose|pos: Seq<int>|
                    #![trigger pos.len()]
                    pos.len() == ranked@.len() && (forall|i: int|
                        0 <= i < ranked@.len() ==> 0 <= #[trigger] pos[i] < names@.len()
                            && ranked@[i]@ == names@[pos[i]]@) && (forall|i: int|
                        0 <= i < ranked@.len() ==> forall|j: int|
                            i < j < ranked@.len() ==> #[trigger] pos[i] != #[trigger] pos[j]);
                assert forall|i: int, j: int| 0 <= i < j < rv.len() implies #[trigger] rv[i]
                    != #[trigger] rv[j] by {
                    assert(rv[i] == ranked@[i]@ && rv[j] == ranked@[j]@);
                    assert(nv[pos[i]] == names@[pos[i]]@ && nv[pos[j]] == names@[pos[j]]@);
                    assert(nv[pos[i]] == self@[pos[i]].name && nv[pos[j]] == self@[pos[j]].name);
                    if pos[i] < pos[j] {
                        assert(self@[pos[i]].name != self@[pos[j]].name);
                    } else {
                        assert(self@[pos[j]].name != self@[pos[i]].name);
                    }
                }
                lemma_select_distinct(self@, rv);
            }
        }
        select_ranked(&self.apps, &ranked)
    }
}

} // verus!
