use vstd::prelude::*;

use crate::error::ConvertError;
use crate::tree::{config_to_generic, generic_to_config, Tree};

verus! {

/// A tree without datetimes is its own generic model.
pub proof fn lemma_generic_identity(t: Tree)
    requires
        t.no_datetime(),
    ensures
        t.generic() == t,
    decreases t,
{
    match t {
        Tree::Array(items) => {
            assert forall|i: int| 0 <= i < items.len() implies items[i].generic() == items[i] by {
                lemma_generic_identity(items[i]);
            }
            assert(t.generic()->Array_0 =~= items);
        },
        Tree::Table(entries) => {
            assert forall|i: int| 0 <= i < entries.len() implies entries[i].1.generic()
                == entries[i].1 by {
                lemma_generic_identity(entries[i].1);
            }
            assert(t.generic()->Table_0 =~= entries);
        },
        _ => {},
    }
}

/// The generic model keeps the root's kind, every float and every key, so
/// tables stay mappings, and holds no datetime.
pub proof fn lemma_generic_shape(t: Tree)
    ensures
        t.generic().no_datetime(),
        t.generic().all_finite() == t.all_finite(),
        (t.generic() is Table) == (t is Table),
        (t.generic() is Array) == (t is Array),
        t.generic().well_formed() == t.well_formed(),
    decreases t,
{
    match t {
        Tree::Array(items) => {
            let g = t.generic()->Array_0;
            assert forall|i: int| 0 <= i < items.len() implies g[i].no_datetime() && g[i].all_finite()
                == items[i].all_finite() && g[i].well_formed() == items[i].well_formed() by {
                lemma_generic_shape(items[i]);
            }
            if t.all_finite() {
                assert forall|i: int| 0 <= i < g.len() implies g[i].all_finite() by {
                    assert(items[i].all_finite());
                }
            }
            if t.generic().all_finite() {
                assert forall|i: int| 0 <= i < items.len() implies items[i].all_finite() by {
                    assert(g[i].all_finite());
                }
            }
            if t.well_formed() {
                assert forall|i: int| 0 <= i < g.len() implies g[i].well_formed() by {
                    assert(items[i].well_formed());
                }
            }
            if t.generic().well_formed() {
                assert forall|i: int| 0 <= i < items.len() implies items[i].well_formed() by {
                    assert(g[i].well_formed());
                }
            }
        },
        Tree::Table(entries) => {
            let g = t.generic()->Table_0;
            assert forall|i: int| 0 <= i < entries.len() implies g[i].1.no_datetime()
                && g[i].1.all_finite() == entries[i].1.all_finite() && g[i].1.well_formed()
                == entries[i].1.well_formed() && g[i].0 == entries[i].0 by {
                lemma_generic_shape(entries[i].1);
            }
            if t.all_finite() {
                assert forall|i: int| 0 <= i < g.len() implies g[i].1.all_finite() by {
                    assert(entries[i].1.all_finite());
                }
            }
            if t.generic().all_finite() {
                assert forall|i: int| 0 <= i < entries.len() implies entries[i].1.all_finite() by {
                    assert(g[i].1.all_finite());
                }
            }
            if t.well_formed() {
                assert forall|i: int, j: int| 0 <= i < j < g.len() implies g[i].0 != g[j].0 by {
                    assert(entries[i].0 != entries[j].0);
                }
                assert forall|i: int| 0 <= i < g.len() implies g[i].1.well_formed() by {
                    assert(entries[i].1.well_formed());
                }
            }
            if t.generic().well_formed() {
                assert forall|i: int, j: int| 0 <= i < j < entries.len() implies entries[i].0
                    != entries[j].0 by {
                    assert(g[i].0 != g[j].0);
                }
                assert forall|i: int| 0 <= i < entries.len() implies entries[i].1.well_formed() by {
                    assert(g[i].1.well_formed());
                }
            }
        },
        _ => {},
    }
}

/// A table with no datetime and no infinite or NaN float goes to the generic
/// model and back to the config-style model unchanged.
pub proof fn lemma_round_trip(t: Tree)
    requires
        t is Table,
        t.no_datetime(),
        t.all_finite(),
    ensures
        config_to_generic(t) matches Ok(g) && generic_to_config(g) == Ok::<Tree, ConvertError>(t),
{
    lemma_generic_identity(t);
}

/// A datetime becomes the string of its text in the generic model, and
/// converting that model back gives a string, never a datetime: the
/// generic model of any table holds no datetime, and the config-style
/// model keeps it as it is.
pub proof fn lemma_datetime_degrades(t: Tree, key: Seq<char>, text: Seq<char>)
    requires
        t is Table,
        t.all_finite(),
    ensures
        config_to_generic(t) matches Ok(g) && g.no_datetime() && generic_to_config(g) == Ok::<
            Tree,
            ConvertError,
        >(g),
        config_to_generic(Tree::Table(seq![(key, Tree::Datetime(text))])) == Ok::<
            Tree,
            ConvertError,
        >(Tree::Table(seq![(key, Tree::String(text))])),
{
    lemma_generic_shape(t);
    let d = Tree::Table(seq![(key, Tree::Datetime(text))]);
    let s = Tree::Table(seq![(key, Tree::String(text))]);
    assert(d->Table_0[0].1.all_finite());
    assert(d.all_finite());
    assert(Tree::Datetime(text).generic() == Tree::String(text));
    assert(d.generic()->Table_0[0] == s->Table_0[0]);
    assert(d.generic()->Table_0 =~= s->Table_0);
}

/// A tree that holds an infinity or a NaN fails in both directions with
/// `InvalidNumber` (a non-table root fails first with `UnsupportedRoot`).
pub proof fn lemma_non_finite_rejected(t: Tree)
    requires
        !t.all_finite(),
    ensures
        config_to_generic(t) == Err::<Tree, ConvertError>(ConvertError::InvalidNumber),
        t is Table ==> generic_to_config(t) == Err::<Tree, ConvertError>(
            ConvertError::InvalidNumber,
        ),
{
}

/// A generic-format tree whose root is not a table fails to become a
/// config-style tree, with `UnsupportedRoot`.
pub proof fn lemma_non_table_root_rejected(t: Tree)
    requires
        !(t is Table),
    ensures
        generic_to_config(t) == Err::<Tree, ConvertError>(ConvertError::UnsupportedRoot),
{
}

/// Empty containers are kept, not dropped: an empty table goes to an empty
/// table and back, and an empty array under a key stays an empty array.
pub proof fn lemma_empty_containers_kept(key: Seq<char>)
    ensures
        config_to_generic(Tree::Table(Seq::empty())) == Ok::<Tree, ConvertError>(
            Tree::Table(Seq::empty()),
        ),
        generic_to_config(Tree::Table(Seq::empty())) == Ok::<Tree, ConvertError>(
            Tree::Table(Seq::empty()),
        ),
        config_to_generic(Tree::Table(seq![(key, Tree::Array(Seq::empty()))])) == Ok::<
            Tree,
            ConvertError,
        >(Tree::Table(seq![(key, Tree::Array(Seq::empty()))])),
{
    let e = Tree::Table(Seq::empty());
    assert(e.generic()->Table_0 =~= Seq::<(Seq<char>, Tree)>::empty());
    let a = Tree::Array(Seq::empty());
    assert(a.generic()->Array_0 =~= Seq::<Tree>::empty());
    let t = Tree::Table(seq![(key, a)]);
    assert(t->Table_0[0].1.all_finite());
    assert(t.all_finite());
    assert(t.generic()->Table_0[0] == t->Table_0[0]);
    assert(t.generic()->Table_0 =~= t->Table_0);
}

} // verus!
