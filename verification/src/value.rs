//! Configuration values: merging one configuration over another, finding a
//! value by its dotted path, and putting environment variables in the place
//! of their placeholders.

use crate::config::{env_placeholder, placeholder_key};
use crate::text::{split, split_str, str_eq};
use vstd::prelude::*;
use vstd::string::*;

verus! {

/// A configuration value.
#[derive(Debug, PartialEq, Eq)]
pub enum ConfigValue {
    Text(String),
    Integer(i64),
    /// A floating-point number, kept as its bits.
    Float(u64),
    Boolean(bool),
    /// A date or time, as it is written.
    Datetime(String),
    Array(Vec<ConfigValue>),
    /// A table: its keys with their values; no key occurs twice.
    Table(Vec<(String, ConfigValue)>),
}

pub enum ValueView {
    Text(Seq<char>),
    Integer(i64),
    Float(u64),
    Boolean(bool),
    Datetime(Seq<char>),
    Array(Seq<ValueView>),
    Table(Seq<(Seq<char>, ValueView)>),
}

/// What a configuration value holds.
pub open spec fn model(value: ConfigValue) -> ValueView
    decreases value,
{
    match value {
        ConfigValue::Text(s) => ValueView::Text(s@),
        ConfigValue::Integer(n) => ValueView::Integer(n),
        ConfigValue::Float(bits) => ValueView::Float(bits),
        ConfigValue::Boolean(b) => ValueView::Boolean(b),
        ConfigValue::Datetime(s) => ValueView::Datetime(s@),
        ConfigValue::Array(items) => ValueView::Array(
            Seq::new(
                items@.len(),
                |i: int|
                    if 0 <= i < items@.len() {
                        model(items@[i])
                    } else {
                        ValueView::Boolean(false)
                    },
            ),
        ),
        ConfigValue::Table(entries) => ValueView::Table(
            Seq::new(
                entries@.len(),
                |i: int|
                    if 0 <= i < entries@.len() {
                        (entries@[i].0@, model(entries@[i].1))
                    } else {
                        (Seq::empty(), ValueView::Boolean(false))
                    },
            ),
        ),
    }
}

impl DeepView for ConfigValue {
    type V = ValueView;

    open spec fn deep_view(&self) -> ValueView {
        model(*self)
    }
}

/// The entries of a table, as values.
pub open spec fn entries_view(entries: Seq<(String, ConfigValue)>) -> Seq<(Seq<char>, ValueView)> {
    Seq::new(entries.len(), |i: int| (entries[i].0@, entries[i].1.deep_view()))
}

/// The items of an array, as values.
pub open spec fn items_view(items: Seq<ConfigValue>) -> Seq<ValueView> {
    Seq::new(items.len(), |i: int| items[i].deep_view())
}

/// A table's value is made of its entries' values, an array's of its items'.
pub proof fn lemma_view(value: ConfigValue)
    ensures
        value matches ConfigValue::Table(entries) ==> value.deep_view() == ValueView::Table(
            entries_view(entries@),
        ),
        value matches ConfigValue::Array(items) ==> value.deep_view() == ValueView::Array(
            items_view(items@),
        ),
{
    match value {
        ConfigValue::Table(entries) => {
            assert(model(value)->Table_0.len() == entries@.len());
            assert forall|i: int| 0 <= i < entries@.len() implies model(value)->Table_0[i]
                == entries_view(entries@)[i] by {}
            assert(value.deep_view()->Table_0 =~= entries_view(entries@));
        },
        ConfigValue::Array(items) => {
            assert(model(value)->Array_0.len() == items@.len());
            assert(value.deep_view()->Array_0 =~= items_view(items@));
        },
        _ => {},
    }
}

/// The position of a key among the first `n` entries, if it is there.
pub open spec fn key_index(entries: Seq<(Seq<char>, ValueView)>, key: Seq<char>, n: int) -> Option<
    int,
>
    decreases n,
{
    if n <= 0 {
        None
    } else {
        match key_index(entries, key, n - 1) {
            Some(i) => Some(i),
            None => if entries[n - 1].0 == key {
                Some(n - 1)
            } else {
                None
            },
        }
    }
}

/// One value merged over another: two tables are merged key by key, where a
/// key of the second that the first lacks is added at the end; in every
/// other case the second value takes the place of the first.
pub open spec fn merged(base: ValueView, other: ValueView) -> ValueView
    decreases other, 0int,
{
    match (base, other) {
        (ValueView::Table(b), ValueView::Table(o)) => ValueView::Table(
            merged_entries(b, o, o.len() as int),
        ),
        (_, o) => o,
    }
}

/// The entries of a table after the first `n` entries of another were merged
/// over it.
pub open spec fn merged_entries(
    b: Seq<(Seq<char>, ValueView)>,
    o: Seq<(Seq<char>, ValueView)>,
    n: int,
) -> Seq<(Seq<char>, ValueView)>
    decreases o, n,
{
    if n <= 0 || n > o.len() {
        b
    } else {
        let before = merged_entries(b, o, n - 1);
        let key = o[n - 1].0;
        match key_index(before, key, before.len() as int) {
            Some(i) => before.update(i, (key, merged(before[i].1, o[n - 1].1))),
            None => before.push(o[n - 1]),
        }
    }
}

/// The value found from the first `n` segments of a path: each segment is
/// looked up as a key in the table found so far.
pub open spec fn found(root: ValueView, segs: Seq<Seq<char>>, n: int) -> Option<ValueView>
    decreases n,
{
    if n <= 0 {
        Some(root)
    } else {
        match found(root, segs, n - 1) {
            Some(ValueView::Table(entries)) => match key_index(
                entries,
                segs[n - 1],
                entries.len() as int,
            ) {
                Some(i) => Some(entries[i].1),
                None => None,
            },
            _ => None,
        }
    }
}

/// The value of a variable among the first `n` given ones.
pub open spec fn variable(vars: Seq<(Seq<char>, Seq<char>)>, key: Seq<char>, n: int) -> Option<
    Seq<char>,
>
    decreases n,
{
    if n <= 0 {
        None
    } else {
        match variable(vars, key, n - 1) {
            Some(v) => Some(v),
            None => if vars[n - 1].0 == key {
                Some(vars[n - 1].1)
            } else {
                None
            },
        }
    }
}

/// A text after injection: the value of the variable that it stands for, if
/// it stands for one that is given, else itself.
pub open spec fn injected_text(text: Seq<char>, vars: Seq<(Seq<char>, Seq<char>)>) -> Seq<char> {
    match placeholder_key(text) {
        Some(key) => match variable(vars, key, vars.len() as int) {
            Some(v) => v,
            None => text,
        },
        None => text,
    }
}

/// A value after injection: every text in it, at any depth.
pub open spec fn injected(value: ValueView, vars: Seq<(Seq<char>, Seq<char>)>) -> ValueView
    decreases value,
{
    match value {
        ValueView::Text(s) => ValueView::Text(injected_text(s, vars)),
        ValueView::Array(items) => ValueView::Array(
            Seq::new(
                items.len(),
                |i: int|
                    if 0 <= i < items.len() {
                        injected(items[i], vars)
                    } else {
                        ValueView::Boolean(false)
                    },
            ),
        ),
        ValueView::Table(entries) => ValueView::Table(
            Seq::new(
                entries.len(),
                |i: int|
                    if 0 <= i < entries.len() {
                        (entries[i].0, injected(entries[i].1, vars))
                    } else {
                        (Seq::empty(), ValueView::Boolean(false))
                    },
            ),
        ),
        other => other,
    }
}

/// The position of a key in a table.
pub fn find_key(entries: &Vec<(String, ConfigValue)>, key: &str) -> (at: Option<usize>)
    ensures
        match key_index(entries_view(entries@), key@, entries.len() as int) {
            Some(i) => at == Some(i as usize) && 0 <= i < entries.len() && entries@[i].0@ == key@,
            None => at is None,
        },
{
    let mut i: usize = 0;
    while i < entries.len()
        invariant
            i <= entries.len(),
            key_index(entries_view(entries@), key@, i as int) is None,
        decreases entries.len() - i,
    {
        if str_eq(entries[i].0.as_str(), key) {
            proof {
                lemma_key_index_stays(entries_view(entries@), key@, i + 1, entries.len() as int);
            }
            return Some(i);
        }
        i += 1;
    }
    None
}

/// A key found among the first entries is found at the same place among all.
pub proof fn lemma_key_index_stays(
    entries: Seq<(Seq<char>, ValueView)>,
    key: Seq<char>,
    n: int,
    m: int,
)
    requires
        0 <= n <= m,
        key_index(entries, key, n) is Some,
    ensures
        key_index(entries, key, m) == key_index(entries, key, n),
        0 <= key_index(entries, key, n)->0 < n,
        entries[key_index(entries, key, n)->0].0 == key,
    decreases m,
{
    if n < m {
        lemma_key_index_stays(entries, key, n, m - 1);
    } else if n > 0 {
        if key_index(entries, key, n - 1) is Some {
            lemma_key_index_stays(entries, key, n - 1, n - 1);
        }
    }
}

/// A copy of a value.
pub fn copy_value(value: &ConfigValue) -> (copy: ConfigValue)
    ensures
        copy.deep_view() == value.deep_view(),
    decreases value,
{
    match value {
        ConfigValue::Text(s) => ConfigValue::Text(s.clone()),
        ConfigValue::Integer(n) => ConfigValue::Integer(*n),
        ConfigValue::Float(bits) => ConfigValue::Float(*bits),
        ConfigValue::Boolean(b) => ConfigValue::Boolean(*b),
        ConfigValue::Datetime(s) => ConfigValue::Datetime(s.clone()),
        ConfigValue::Array(items) => {
            let mut out: Vec<ConfigValue> = Vec::new();
            let mut i: usize = 0;
            while i < items.len()
                invariant
                    i <= items.len(),
                    value == ConfigValue::Array(*items),
                    out.len() == i,
                    forall|j: int| 0 <= j < i ==> (#[trigger] out@[j]).deep_view() == items@[j].deep_view(),
                decreases items.len() - i,
            {
                proof {
                    vstd::std_specs::vec::axiom_vec_index_decreases(*items, i as int);
                    assert(decreases_to!(*value => value->Array_0));
                }
                let c = copy_value(&items[i]);
                out.push(c);
                i += 1;
            }
            let copy = ConfigValue::Array(out);
            proof {
                lemma_view(copy);
                lemma_view(*value);
                assert(items_view(out@) =~= items_view(items@));
            }
            copy
        },
        ConfigValue::Table(entries) => {
            let mut out: Vec<(String, ConfigValue)> = Vec::new();
            let mut i: usize = 0;
            while i < entries.len()
                invariant
                    i <= entries.len(),
                    value == ConfigValue::Table(*entries),
                    out.len() == i,
                    forall|j: int|
                        0 <= j < i ==> (#[trigger] out@[j]).0@ == entries@[j].0@ && out@[j].1.deep_view()
                            == entries@[j].1.deep_view(),
                decreases entries.len() - i,
            {
                proof {
                    vstd::std_specs::vec::axiom_vec_index_decreases(*entries, i as int);
                    assert(decreases_to!(*value => value->Table_0));
                    assert(decreases_to!(entries[i as int] => entries[i as int].1));
                }
                let c = copy_value(&entries[i].1);
                out.push((entries[i].0.clone(), c));
                i += 1;
            }
            let copy = ConfigValue::Table(out);
            proof {
                lemma_view(copy);
                lemma_view(*value);
                assert(entries_view(out@) =~= entries_view(entries@));
            }
            copy
        },
    }
}

/// Merges one configuration over another: tables are merged key by key,
/// and anything else in `other` takes the place of what `base` has.
pub fn merge_toml(base: ConfigValue, other: &ConfigValue) -> (out: ConfigValue)
    ensures
        out.deep_view() == merged(base.deep_view(), other.deep_view()),
    decreases other,
{
    proof {
        lemma_view(base);
        lemma_view(*other);
    }
    match other {
        ConfigValue::Table(o) => match base {
            ConfigValue::Table(b) => {
                let mut b = b;
                let ghost b0 = entries_view(b@);
                let ghost ov = entries_view(o@);
                let mut n: usize = 0;
                while n < o.len()
                    invariant
                        n <= o.len(),
                        *other == ConfigValue::Table(*o),
                        ov == entries_view(o@),
                        entries_view(b@) == merged_entries(b0, ov, n as int),
                    decreases o.len() - n,
                {
                    let ghost before = entries_view(b@);
                    let key = &o[n].0;
                    match find_key(&b, key.as_str()) {
                        Some(i) => {
                            let ghost raw = b@;
                            let (k, old) = b.remove(i);
                            proof {
                                vstd::std_specs::vec::axiom_vec_index_decreases(*o, n as int);
                                assert(decreases_to!(*other => other->Table_0));
                                assert(decreases_to!(o[n as int] => o[n as int].1));
                            }
                            let new = merge_toml(old, &o[n].1);
                            b.insert(i, (k, new));
                            proof {
                                assert(b@ =~= raw.update(i as int, (k, new)));
                                assert(entries_view(b@) =~= before.update(
                                    i as int,
                                    (key@, merged(before[i as int].1, ov[n as int].1)),
                                ));
                            }
                        },
                        None => {
                            let added = (key.clone(), copy_value(&o[n].1));
                            b.push(added);
                            proof {
                                assert(entries_view(b@) =~= before.push(ov[n as int]));
                            }
                        },
                    }
                    n += 1;
                }
                let out = ConfigValue::Table(b);
                proof {
                    lemma_view(out);
                }
                out
            },
            _ => copy_value(other),
        },
        _ => copy_value(other),
    }
}

/// Finds a value by its dotted path: each part of the path is a key of the
/// table found so far. The empty path has one part, the empty key.
pub fn get_value<'a>(root: &'a ConfigValue, path: &str) -> (res: Option<&'a ConfigValue>)
    ensures
        res.deep_view() == found(
            root.deep_view(),
            split(path@, '.'),
            split(path@, '.').len() as int,
        ),
{
    let segs = split_str(path, '.');
    let mut current = root;
    let mut i: usize = 0;
    while i < segs.len()
        invariant
            i <= segs.len(),
            segs.deep_view() == split(path@, '.'),
            found(root.deep_view(), segs.deep_view(), i as int) == Some(current.deep_view()),
        decreases segs.len() - i,
    {
        proof {
            lemma_view(*current);
        }
        match current {
            ConfigValue::Table(entries) => match find_key(entries, segs[i].as_str()) {
                Some(at) => {
                    current = &entries[at].1;
                },
                None => {
                    proof {
                        lemma_found_none_stays(
                            root.deep_view(),
                            segs.deep_view(),
                            i + 1,
                            segs.len() as int,
                        );
                    }
                    return None;
                },
            },
            _ => {
                proof {
                    lemma_found_none_stays(
                        root.deep_view(),
                        segs.deep_view(),
                        i + 1,
                        segs.len() as int,
                    );
                }
                return None;
            },
        }
        i += 1;
    }
    Some(current)
}

/// A path whose first parts lead nowhere leads nowhere.
pub proof fn lemma_found_none_stays(root: ValueView, segs: Seq<Seq<char>>, n: int, m: int)
    requires
        0 <= n <= m,
        found(root, segs, n) is None,
    ensures
        found(root, segs, m) is None,
    decreases m - n,
{
    if n < m {
        lemma_found_none_stays(root, segs, n, m - 1);
    }
}

/// The value of a variable, if it is among the given ones.
pub fn find_variable<'a>(vars: &'a Vec<(String, String)>, key: &str) -> (res: Option<&'a String>)
    ensures
        res.deep_view() == variable(vars.deep_view(), key@, vars.len() as int),
{
    let mut i: usize = 0;
    while i < vars.len()
        invariant
            i <= vars.len(),
            variable(vars.deep_view(), key@, i as int) is None,
        decreases vars.len() - i,
    {
        if str_eq(vars[i].0.as_str(), key) {
            proof {
                lemma_variable_stays(vars.deep_view(), key@, i + 1, vars.len() as int);
            }
            return Some(&vars[i].1);
        }
        i += 1;
    }
    None
}

/// A variable found among the first ones is found with the same value among
/// all.
pub proof fn lemma_variable_stays(vars: Seq<(Seq<char>, Seq<char>)>, key: Seq<char>, n: int, m: int)
    requires
        0 <= n <= m,
        variable(vars, key, n) is Some,
    ensures
        variable(vars, key, m) == variable(vars, key, n),
    decreases m - n,
{
    if n < m {
        lemma_variable_stays(vars, key, n, m - 1);
    }
}

/// A copy of a value in which every text `${KEY}`, at any depth, has given
/// way to the value of the variable `KEY`, where that variable is given.
pub fn inject_env_vars(value: &ConfigValue, vars: &Vec<(String, String)>) -> (out: ConfigValue)
    ensures
        out.deep_view() == injected(value.deep_view(), vars.deep_view()),
    decreases value,
{
    proof {
        lemma_view(*value);
    }
    match value {
        ConfigValue::Text(s) => {
            match env_placeholder(s.as_str()) {
                Some(key) => match find_variable(vars, key.as_str()) {
                    Some(v) => ConfigValue::Text(v.clone()),
                    None => ConfigValue::Text(s.clone()),
                },
                None => ConfigValue::Text(s.clone()),
            }
        },
        ConfigValue::Integer(n) => ConfigValue::Integer(*n),
        ConfigValue::Float(bits) => ConfigValue::Float(*bits),
        ConfigValue::Boolean(b) => ConfigValue::Boolean(*b),
        ConfigValue::Datetime(s) => ConfigValue::Datetime(s.clone()),
        ConfigValue::Array(items) => {
            let mut out: Vec<ConfigValue> = Vec::new();
            let mut i: usize = 0;
            while i < items.len()
                invariant
                    i <= items.len(),
                    *value == ConfigValue::Array(*items),
                    out.len() == i,
                    forall|j: int|
                        0 <= j < i ==> (#[trigger] out@[j]).deep_view() == injected(
                            items@[j].deep_view(),
                            vars.deep_view(),
                        ),
                decreases items.len() - i,
            {
                proof {
                    vstd::std_specs::vec::axiom_vec_index_decreases(*items, i as int);
                    assert(decreases_to!(*value => value->Array_0));
                }
                let c = inject_env_vars(&items[i], vars);
                out.push(c);
                i += 1;
            }
            let res = ConfigValue::Array(out);
            proof {
                lemma_view(res);
                assert(items_view(out@) =~= injected(value.deep_view(), vars.deep_view())->Array_0);
            }
            res
        },
        ConfigValue::Table(entries) => {
            let mut out: Vec<(String, ConfigValue)> = Vec::new();
            let mut i: usize = 0;
            while i < entries.len()
                invariant
                    i <= entries.len(),
                    *value == ConfigValue::Table(*entries),
                    out.len() == i,
                    forall|j: int|
                        0 <= j < i ==> (#[trigger] out@[j]).0@ == entries@[j].0@ && out@[j].1.deep_view()
                            == injected(entries@[j].1.deep_view(), vars.deep_view()),
                decreases entries.len() - i,
            {
                proof {
                    vstd::std_specs::vec::axiom_vec_index_decreases(*entries, i as int);
                    assert(decreases_to!(*value => value->Table_0));
                    assert(decreases_to!(entries[i as int] => entries[i as int].1));
                }
                let c = inject_env_vars(&entries[i].1, vars);
                out.push((entries[i].0.clone(), c));
                i += 1;
            }
            let res = ConfigValue::Table(out);
            proof {
                lemma_view(res);
                assert(entries_view(out@) =~= injected(value.deep_view(), vars.deep_view())->Table_0);
            }
            res
        },
    }
}

} // verus!
