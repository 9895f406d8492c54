//! What the widgets of the pane display, computed from the model: the
//! summary line of one row group, and the content of the detail drawer.
//! Rendering itself is the surrounding application's concern.

use vstd::prelude::*;
use crate::grammar::format_spec;
use crate::model::{models_view, BindingId, Model, RowView, ShortcutModel};

verus! {

/// The summary line of one row group: up to three of its set bindings in
/// canonical form, and whether the group counts as disabled (no set
/// binding at all). A nonzero `modified` count is shown as a badge.
pub struct ItemData {
    pub description: String,
    pub bindings: Vec<String>,
    pub modified: usize,
    pub removable: bool,
}

/// The canonical forms of the first set bindings, at most `cap` of them.
pub open spec fn set_binding_texts(rows: Seq<Option<RowView>>, cap: int) -> Seq<Seq<char>>
    decreases rows.len(),
{
    if rows.len() == 0 || cap <= 0 {
        Seq::empty()
    } else {
        match rows[0] {
            Some(r) => if r.binding.is_set() {
                seq![format_spec(r.binding)] + set_binding_texts(rows.drop_first(), cap - 1)
            } else {
                set_binding_texts(rows.drop_first(), cap)
            },
            None => set_binding_texts(rows.drop_first(), cap),
        }
    }
}

/// The views of a sequence of strings.
pub open spec fn sviews(v: Seq<String>) -> Seq<Seq<char>> {
    v.map_values(|s: String| s@)
}

/// The summary line shown for one row group in the list: its description,
/// up to three set bindings, the divergence count, and whether a remove
/// control is offered (only for user-defined categories).
pub fn shortcut_item_data(custom: bool, data: &ShortcutModel) -> (r: ItemData)
    ensures
        r.description@ == data@.description,
        sviews(r.bindings@) == set_binding_texts(data@.bindings, 3),
        r.modified == data@.modified,
        r.removable == custom,
{
    let mut bindings: Vec<String> = Vec::new();
    let n = data.bindings.slot_count();
    let mut i: usize = 0;
    let mut taken: usize = 0;
    proof {
        assert(sviews(bindings@) =~= Seq::<Seq<char>>::empty());
        assert(data@.bindings.skip(0) =~= data@.bindings);
        assert(set_binding_texts(data@.bindings, 3) == sviews(bindings@) + set_binding_texts(
            data@.bindings.skip(0),
            3,
        ));
    }
    while i < n && taken < 3
        invariant
            i <= n,
            taken <= 3,
            n == data@.bindings.len(),
            taken == bindings@.len(),
            set_binding_texts(data@.bindings, 3) == sviews(bindings@) + set_binding_texts(
                data@.bindings.skip(i as int),
                3 - taken,
            ),
        decreases n - i,
    {
        let ghost rest = data@.bindings.skip(i as int);
        proof {
            assert(rest[0] == data@.bindings[i as int]);
            assert(rest.drop_first() =~= data@.bindings.skip(i + 1));
        }
        match data.bindings.get(i) {
            Some(row) => {
                if row.binding.is_set() {
                    let ghost prev = sviews(bindings@);
                    bindings.push(row.binding.format());
                    taken = taken + 1;
                    proof {
                        assert(sviews(bindings@) =~= prev.push(format_spec(row.binding@)));
                        assert(prev.push(format_spec(row.binding@)) =~= prev + seq![
                            format_spec(row.binding@),
                        ]);
                    }
                }
            },
            None => {},
        }
        i = i + 1;
    }
    proof {
        if i == n {
            assert(data@.bindings.skip(n as int) =~= Seq::<Option<RowView>>::empty());
        }
        assert(set_binding_texts(data@.bindings.skip(i as int), 3 - taken)
            =~= Seq::<Seq<char>>::empty());
        assert(sviews(bindings@) + Seq::<Seq<char>>::empty() =~= sviews(bindings@));
    }
    ItemData {
        description: data.description.clone(),
        bindings,
        modified: data.modified,
        removable: custom,
    }
}

/// One row of the detail drawer: the text its field shows (the canonical
/// form of a set binding, else the edit buffer), and whether it is being
/// edited.
pub struct DrawerRow {
    pub id: BindingId,
    pub text: String,
    pub editing: bool,
}

/// The content of the detail drawer for the active row group.
pub struct DrawerData {
    /// The spawned command, shown only for user-defined categories.
    pub action_text: Option<String>,
    pub rows: Vec<DrawerRow>,
    /// A reset control is offered only for fixed system categories.
    pub show_reset: bool,
    /// The row awaiting raw key capture, if any.
    pub key_capture: Option<BindingId>,
}

/// What a drawer row displays for a row view.
pub open spec fn row_text(r: RowView) -> Seq<char> {
    if r.binding.is_set() {
        format_spec(r.binding)
    } else {
        r.input
    }
}

/// The drawer rows of a row group: every occupied slot in order, as its
/// key, its display text and its editing flag.
pub open spec fn drawer_rows(bs: Seq<Option<RowView>>) -> Seq<(int, Seq<char>, bool)>
    decreases bs.len(),
{
    if bs.len() == 0 {
        Seq::empty()
    } else {
        drawer_rows(bs.drop_last()) + match bs.last() {
            Some(r) => seq![(bs.len() - 1 as int, row_text(r), r.editing)],
            None => Seq::<(int, Seq<char>, bool)>::empty(),
        }
    }
}

/// The views of a sequence of drawer rows.
pub open spec fn drviews(v: Seq<DrawerRow>) -> Seq<(int, Seq<char>, bool)> {
    v.map_values(|r: DrawerRow| (r.id.0 as int, r.text@, r.editing))
}

impl Model {
    /// The content of the detail drawer, or `None` when no row group is
    /// the active context.
    pub fn context_drawer_data(&self) -> (r: Option<DrawerData>)
        ensures
            match r {
                Some(d) => {
                    &&& self.shortcut_context matches Some(sid)
                    &&& models_view(self.shortcut_models@)[sid.0 as int] matches Some(mv)
                    &&& (match d.action_text {
                        Some(t) => self.custom && t@ == mv.action.label(),
                        None => !self.custom,
                    })
                    &&& drviews(d.rows@) == drawer_rows(mv.bindings)
                    &&& d.show_reset == !self.custom
                    &&& (match d.key_capture {
                        Some(kid) => mv.request_key_input == Some(kid.0 as int),
                        None => mv.request_key_input is None,
                    })
                },
                None => self.shortcut_context is None || (self.shortcut_context matches Some(sid)
                    && self.shortcut_models.spec_get(sid.0 as int) is None),
            },
    {
        let sid = match self.shortcut_context {
            Some(s) => s,
            None => {
                return None;
            },
        };
        let model = match self.shortcut_models.get(sid.0) {
            Some(m) => m,
            None => {
                return None;
            },
        };
        proof {
            assert(models_view(self.shortcut_models@)[sid.0 as int] == Some(model@));
        }
        let action_text = if self.custom {
            Some(model.action.label())
        } else {
            None
        };
        let mut rows: Vec<DrawerRow> = Vec::new();
        let n = model.bindings.slot_count();
        let mut k: usize = 0;
        proof {
            assert(model@.bindings.take(0) =~= Seq::<Option<RowView>>::empty());
            assert(drviews(rows@) =~= Seq::<(int, Seq<char>, bool)>::empty());
        }
        while k < n
            invariant
                k <= n,
                n == model@.bindings.len(),
                model@.bindings == crate::model::rows_view(model.bindings@),
                drviews(rows@) == drawer_rows(model@.bindings.take(k as int)),
            decreases n - k,
        {
            let ghost bs = model@.bindings;
            proof {
                assert(bs.take(k + 1).drop_last() =~= bs.take(k as int));
                assert(bs.take(k + 1).last() == bs[k as int]);
            }
            match model.bindings.get(k) {
                Some(row) => {
                    proof {
                        assert(bs[k as int] == Some(row@));
                    }
                    let text = if row.binding.is_set() {
                        row.binding.format()
                    } else {
                        row.input.clone()
                    };
                    let ghost prev = drviews(rows@);
                    rows.push(DrawerRow { id: BindingId(k), text, editing: row.editing });
                    proof {
                        assert(drviews(rows@) =~= prev.push(
                            (k as int, row_text(row@), row@.editing),
                        ));
                        assert(prev.push((k as int, row_text(row@), row@.editing)) =~= prev + seq![
                            (k as int, row_text(row@), row@.editing),
                        ]);
                    }
                },
                None => {},
            }
            k = k + 1;
        }
        proof {
            assert(model@.bindings.take(n as int) =~= model@.bindings);
        }
        Some(
            DrawerData {
                action_text,
                rows,
                show_reset: !self.custom,
                key_capture: model.request_key_input,
            },
        )
    }
}

} // verus!
