//! Widget inference: recognizing `<prefix><name>_create` declarations,
//! collecting the unique widget names they define, and grouping every
//! qualifying declaration into its widget's method list.

use vstd::prelude::*;

use crate::model::{is_method_spec, FuncModel, LvFunc, LvWidget, WidgetModel};
use crate::strutil::{ends_with_str, starts_with_str, str_eq};
use crate::{lib_prefix, spec_lib_prefix};

verus! {

/// The models of a sequence of declarations.
pub open spec fn funcs_view(v: Seq<LvFunc>) -> Seq<FuncModel> {
    v.map_values(|f: LvFunc| f@)
}

/// The character sequences of a sequence of strings.
pub open spec fn strs_view(v: Seq<String>) -> Seq<Seq<char>> {
    v.map_values(|s: String| s@)
}

/// The models of a sequence of widgets.
pub open spec fn widgets_view(v: Seq<LvWidget>) -> Seq<WidgetModel> {
    v.map_values(|w: LvWidget| w@)
}

/// The widget name a declaration name defines, if any: the name must be the
/// prefix, then one nonempty run of characters other than an underscore,
/// then exactly `_create`.
pub open spec fn create_capture(n: Seq<char>) -> Option<Seq<char>> {
    if n.len() >= 11 && spec_lib_prefix().is_prefix_of(n) && "_create"@.is_suffix_of(n) && (
    forall|i: int| 3 <= i < n.len() - 7 ==> #[trigger] n[i] != '_') {
        Some(n.subrange(3, n.len() - 7))
    } else {
        None
    }
}

/// Recognizes a creation declaration's name and captures the widget name
/// inside it.
pub fn widget_name_of(name: &str) -> (r: Option<String>)
    ensures
        match r {
            Some(s) => create_capture(name@) == Some(s@),
            None => create_capture(name@) is None,
        },
{
    proof {
        reveal_strlit("_create");
    }
    let n = name.unicode_len();
    if n < 11 {
        return None;
    }
    if !starts_with_str(name, lib_prefix()) {
        return None;
    }
    if !ends_with_str(name, "_create") {
        return None;
    }
    let mid = name.substring_char(3, n - 7);
    let m = mid.unicode_len();
    let mut j: usize = 0;
    while j < m
        invariant
            j <= m,
            m == mid@.len(),
            mid@ == name@.subrange(3, name@.len() - 7),
            n == name@.len(),
            11 <= n,
            forall|k: int| 0 <= k < j ==> #[trigger] mid@[k] != '_',
        decreases m - j,
    {
        if mid.get_char(j) == '_' {
            proof {
                assert(name@[3 + j] == '_');
            }
            return None;
        }
        j += 1;
    }
    proof {
        assert(forall|i: int| 3 <= i < name@.len() - 7 ==> #[trigger] name@[i] != '_') by {
            assert(forall|i: int| 3 <= i < name@.len() - 7 ==> name@[i] == mid@[i - 3]);
        }
    }
    Some(String::from_str(mid))
}

/// The unique widget names defined by the first `i` declarations, in the
/// order of first appearance.
pub open spec fn names_upto(fs: Seq<FuncModel>, i: int) -> Seq<Seq<char>>
    decreases i,
{
    if i <= 0 {
        Seq::<Seq<char>>::empty()
    } else {
        let p = names_upto(fs, i - 1);
        if fs[i - 1].args.len() == 1 && create_capture(fs[i - 1].name) is Some {
            let x = create_capture(fs[i - 1].name).unwrap();
            if p.contains(x) {
                p
            } else {
                p.push(x)
            }
        } else {
            p
        }
    }
}

/// Every unique widget name that the declarations define.
pub open spec fn widget_names_spec(fs: Seq<FuncModel>) -> Seq<Seq<char>> {
    names_upto(fs, fs.len() as int)
}

/// The method-membership rule: the declaration's name starts with the
/// widget's full prefixed name followed by an underscore, and its first
/// parameter is an object handle.
pub open spec fn qualifies(w: Seq<char>, f: FuncModel) -> bool {
    (spec_lib_prefix() + w + "_"@).is_prefix_of(f.name) && is_method_spec(f)
}

/// The methods of widget `w` among the first `i` declarations, in
/// declaration order.
pub open spec fn methods_for(fs: Seq<FuncModel>, w: Seq<char>, i: int) -> Seq<FuncModel>
    decreases i,
{
    if i <= 0 {
        Seq::<FuncModel>::empty()
    } else {
        let p = methods_for(fs, w, i - 1);
        if qualifies(w, fs[i - 1]) {
            p.push(fs[i - 1])
        } else {
            p
        }
    }
}

/// The full widget list: one entry per discovered name, in discovery order,
/// each holding its methods in declaration order.
pub open spec fn widgets_spec(fs: Seq<FuncModel>) -> Seq<WidgetModel> {
    widget_names_spec(fs).map_values(
        |n: Seq<char>| WidgetModel { name: n, methods: methods_for(fs, n, fs.len() as int) },
    )
}

proof fn lemma_names_contains(fs: Seq<FuncModel>, i: int, k: int)
    requires
        0 <= k < i <= fs.len(),
        fs[k].args.len() == 1,
        create_capture(fs[k].name) is Some,
    ensures
        names_upto(fs, i).contains(create_capture(fs[k].name).unwrap()),
    decreases i,
{
    let x = create_capture(fs[k].name).unwrap();
    let p = names_upto(fs, i - 1);
    if i - 1 == k {
        if !p.contains(x) {
            assert(p.push(x)[p.len() as int] == x);
        }
    } else {
        lemma_names_contains(fs, i - 1, k);
        let j = choose|j: int| 0 <= j < p.len() && p[j] == x;
        if fs[i - 1].args.len() == 1 && create_capture(fs[i - 1].name) is Some {
            let y = create_capture(fs[i - 1].name).unwrap();
            if !p.contains(y) {
                assert(p.push(y)[j] == x);
            }
        }
    }
}

/// Any declaration named `<prefix><X>_create` with exactly one parameter
/// makes `X` a discovered widget name; the generic base name `obj` is
/// nonetheless excluded from the final output, since its widget's generated
/// unit is a skip.
pub proof fn lemma_create_defines_widget(fs: Seq<FuncModel>, k: int)
    requires
        0 <= k < fs.len(),
        fs[k].args.len() == 1,
        create_capture(fs[k].name) is Some,
    ensures
        widget_names_spec(fs).contains(create_capture(fs[k].name).unwrap()),
        forall|w: WidgetModel| w.name == "obj"@ ==> #[trigger] crate::emit::widget_code_spec(w)
            is None,
{
    lemma_names_contains(fs, fs.len() as int, k);
}

proof fn lemma_methods_for_membership(fs: Seq<FuncModel>, w: Seq<char>, i: int, f: FuncModel)
    requires
        0 <= i <= fs.len(),
    ensures
        methods_for(fs, w, i).contains(f) <==> ((exists|k: int| 0 <= k < i && fs[k] == f)
            && qualifies(w, f)),
    decreases i,
{
    if i > 0 {
        lemma_methods_for_membership(fs, w, i - 1, f);
        let p = methods_for(fs, w, i - 1);
        if qualifies(w, fs[i - 1]) {
            let q = p.push(fs[i - 1]);
            assert(q[p.len() as int] == fs[i - 1]);
            if q.contains(f) {
                let j = choose|j: int| 0 <= j < q.len() && q[j] == f;
                if j < p.len() {
                    assert(p[j] == f);
                } else {
                    assert(f == fs[i - 1]);
                }
            }
            if p.contains(f) {
                let j = choose|j: int| 0 <= j < p.len() && p[j] == f;
                assert(q[j] == f);
            }
        }
    }
}

/// The method-membership rule, of the final grouping: a declaration stands
/// in a widget's method list exactly when it is one of the loaded
/// declarations, its name starts with the widget's prefixed name followed by
/// an underscore, and its first parameter is an object handle; otherwise it
/// stands in no widget.
pub proof fn lemma_method_membership(fs: Seq<FuncModel>, j: int, f: FuncModel)
    requires
        0 <= j < widgets_spec(fs).len(),
    ensures
        widgets_spec(fs)[j].methods.contains(f) <==> (fs.contains(f) && qualifies(
            widgets_spec(fs)[j].name,
            f,
        )),
{
    lemma_methods_for_membership(fs, widgets_spec(fs)[j].name, fs.len() as int, f);
}

proof fn lemma_capture_no_underscore(n: Seq<char>, c: int)
    requires
        create_capture(n) is Some,
        0 <= c < create_capture(n).unwrap().len(),
    ensures
        create_capture(n).unwrap()[c] != '_',
{
    assert(create_capture(n).unwrap()[c] == n[3 + c]);
}

proof fn lemma_names_no_underscore(fs: Seq<FuncModel>, i: int, j: int, c: int)
    requires
        0 <= j < names_upto(fs, i).len(),
        0 <= c < names_upto(fs, i)[j].len(),
    ensures
        names_upto(fs, i)[j][c] != '_',
    decreases i,
{
    if i <= 0 {
    } else {
        let p = names_upto(fs, i - 1);
        if fs[i - 1].args.len() == 1 && create_capture(fs[i - 1].name) is Some && !p.contains(
            create_capture(fs[i - 1].name).unwrap(),
        ) {
            if j == p.len() {
                lemma_capture_no_underscore(fs[i - 1].name, c);
            } else {
                lemma_names_no_underscore(fs, i - 1, j, c);
            }
        } else {
            lemma_names_no_underscore(fs, i - 1, j, c);
        }
    }
}

/// A widget name never holds an underscore, so at most one widget's prefixed
/// name can begin a declaration's name: ownership under the membership rule
/// is unambiguous.
pub proof fn lemma_owner_unique(w1: Seq<char>, w2: Seq<char>, f: FuncModel)
    requires
        qualifies(w1, f),
        qualifies(w2, f),
        forall|i: int| 0 <= i < w1.len() ==> w1[i] != '_',
        forall|i: int| 0 <= i < w2.len() ==> w2[i] != '_',
    ensures
        w1 == w2,
{
    reveal_strlit("_");
    let p1 = spec_lib_prefix() + w1 + "_"@;
    let p2 = spec_lib_prefix() + w2 + "_"@;
    assert(p1[3 + w1.len() as int] == '_');
    assert(p2[3 + w2.len() as int] == '_');
    if w1.len() < w2.len() {
        assert(f.name[3 + w1.len() as int] == p1[3 + w1.len() as int]);
        assert(f.name[3 + w1.len() as int] == p2[3 + w1.len() as int]);
        assert(p2[3 + w1.len() as int] == w2[w1.len() as int]);
        assert(false);
    } else if w2.len() < w1.len() {
        assert(f.name[3 + w2.len() as int] == p2[3 + w2.len() as int]);
        assert(f.name[3 + w2.len() as int] == p1[3 + w2.len() as int]);
        assert(p1[3 + w2.len() as int] == w1[w2.len() as int]);
        assert(false);
    } else {
        assert forall|i: int| 0 <= i < w1.len() implies w1[i] == w2[i] by {
            assert(p1[3 + i] == w1[i]);
            assert(p2[3 + i] == w2[i]);
            assert(f.name[3 + i] == p1[3 + i]);
            assert(f.name[3 + i] == p2[3 + i]);
        }
        assert(w1 =~= w2);
    }
}

/// In the final grouping a declaration belongs to one widget only: two
/// widgets that both hold it carry the same name.
pub proof fn lemma_grouping_partition(fs: Seq<FuncModel>, j1: int, j2: int, f: FuncModel)
    requires
        0 <= j1 < widgets_spec(fs).len(),
        0 <= j2 < widgets_spec(fs).len(),
        widgets_spec(fs)[j1].methods.contains(f),
        widgets_spec(fs)[j2].methods.contains(f),
    ensures
        widgets_spec(fs)[j1].name == widgets_spec(fs)[j2].name,
{
    lemma_method_membership(fs, j1, f);
    lemma_method_membership(fs, j2, f);
    let n1 = widgets_spec(fs)[j1].name;
    let n2 = widgets_spec(fs)[j2].name;
    assert(n1 == widget_names_spec(fs)[j1]);
    assert(n2 == widget_names_spec(fs)[j2]);
    assert forall|c: int| 0 <= c < n1.len() implies n1[c] != '_' by {
        lemma_names_no_underscore(fs, fs.len() as int, j1, c);
    }
    assert forall|c: int| 0 <= c < n2.len() implies n2[c] != '_' by {
        lemma_names_no_underscore(fs, fs.len() as int, j2, c);
    }
    lemma_owner_unique(n1, n2, f);
}

/// Whether a vector of strings already holds the given one.
pub fn vec_contains_str(v: &Vec<String>, s: &str) -> (r: bool)
    ensures
        r == strs_view(v@).contains(s@),
{
    let mut j: usize = 0;
    while j < v.len()
        invariant
            j <= v.len(),
            forall|k: int| 0 <= k < j ==> strs_view(v@)[k] != s@,
        decreases v.len() - j,
    {
        if str_eq(v[j].as_str(), s) {
            proof {
                assert(strs_view(v@)[j as int] == s@);
            }
            return true;
        }
        j += 1;
    }
    false
}

} // verus!

