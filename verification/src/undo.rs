//! Tree-shaped undo history. Undoing moves to the parent node; a new edit
//! after an undo starts a new branch instead of discarding the redo history.
use crate::buffer::{
    cut, delete_line_spec, insert_spec, line_len, merge_spec, splice, TextBuffer,
};
use crate::text::{lemma_line_bounds, lemma_line_start_stable, line_count, line_start};
use crate::types::Position;
use vstd::prelude::*;
use vstd::string::StrSliceExecFns;
use vstd::utf8::encode_utf8;

verus! {

#[derive(Debug)]
pub enum EditType {
    Insert { line: usize, col: usize, text: String },
    Delete { line: usize, col: usize, text: String },
    InsertLine { line: usize, text: String },
    DeleteLine { line: usize, text: String },
    Replace { line: usize, col: usize, old_text: String, new_text: String },
    Merge { line: usize, deleted_newline_col: usize },
    Split { line: usize, col: usize },
    /// Edits undone and redone together (e.g. a Replace-mode session).
    Group { edits: Vec<Edit> },
}

#[derive(Debug)]
pub struct Edit {
    pub edit_type: EditType,
    pub cursor_before: Position,
    pub cursor_after: Position,
    pub modification_count: usize,
}

/// Two edits with equal fields, their groups holding such edits pairwise.
pub open spec fn same_edit(a: Edit, b: Edit) -> bool
    decreases a,
{
    &&& a.cursor_before == b.cursor_before
    &&& a.cursor_after == b.cursor_after
    &&& a.modification_count == b.modification_count
    &&& match a.edit_type {
        EditType::Group { edits: x } => match b.edit_type {
            EditType::Group { edits: y } => same_edits(x@, y@),
            _ => false,
        },
        _ => a.edit_type == b.edit_type,
    }
}

/// Sequences of edits that are pairwise `same_edit`.
pub open spec fn same_edits(x: Seq<Edit>, y: Seq<Edit>) -> bool
    decreases x,
{
    if x.len() == 0 {
        y.len() == 0
    } else {
        y.len() == x.len() && same_edit(x.last(), y.last()) && same_edits(x.drop_last(), y.drop_last())
    }
}

/// A copy of an edit.
pub fn clone_edit(e: &Edit) -> (r: Edit)
    ensures
        same_edit(r, *e),
    decreases e,
{
    let t = match &e.edit_type {
        EditType::Insert { line, col, text } => EditType::Insert {
            line: *line,
            col: *col,
            text: text.clone(),
        },
        EditType::Delete { line, col, text } => EditType::Delete {
            line: *line,
            col: *col,
            text: text.clone(),
        },
        EditType::InsertLine { line, text } => EditType::InsertLine { line: *line, text: text.clone() },
        EditType::DeleteLine { line, text } => EditType::DeleteLine { line: *line, text: text.clone() },
        EditType::Replace { line, col, old_text, new_text } => EditType::Replace {
            line: *line,
            col: *col,
            old_text: old_text.clone(),
            new_text: new_text.clone(),
        },
        EditType::Merge { line, deleted_newline_col } => EditType::Merge {
            line: *line,
            deleted_newline_col: *deleted_newline_col,
        },
        EditType::Split { line, col } => EditType::Split { line: *line, col: *col },
        EditType::Group { edits } => {
            let mut out: Vec<Edit> = Vec::new();
            let mut i: usize = 0;
            while i < edits.len()
                invariant
                    0 <= i <= edits@.len(),
                    e.edit_type == (EditType::Group { edits: *edits }),
                    same_edits(out@, edits@.take(i as int)),
                decreases edits@.len() - i,
            {
                proof {
                    assert(decreases_to!(e => e.edit_type));
                    assert(decreases_to!(e.edit_type => e.edit_type->edits));
                    assert(decreases_to!(*edits => edits[i as int]));
                }
                let c = clone_edit(&edits[i]);
                let ghost o0 = out@;
                out.push(c);
                proof {
                    assert(out@.drop_last() =~= o0);
                    assert(edits@.take(i + 1).drop_last() =~= edits@.take(i as int));
                }
                i += 1;
            }
            let ghost o = out;
            let t = EditType::Group { edits: out };
            proof {
                let a = Edit { edit_type: t, cursor_before: e.cursor_before, cursor_after: e.cursor_after, modification_count: e.modification_count };
                assert(edits@.take(edits@.len() as int) =~= edits@);
                assert(same_edit(a, *e));
            }
            t
        },
    };
    let r = Edit {
        edit_type: t,
        cursor_before: e.cursor_before,
        cursor_after: e.cursor_after,
        modification_count: e.modification_count,
    };
    r
}

impl Clone for Edit {
    fn clone(&self) -> (r: Self)
        ensures
            same_edit(r, *self),
    {
        clone_edit(self)
    }
}

/// The character range `[start, start + n)` at (one-based `line`, `col`)
/// that undo/redo remove, or `None` when removing it would fail (line 0,
/// a line past the end, arithmetic past the machine word, or a range past
/// the end of the text).
pub open spec fn range_at(s: Seq<char>, line: int, col: int, n: int) -> Option<(int, int)> {
    if line < 1 || line - 1 > line_count(s) {
        None
    } else {
        let st = line_start(s, line - 1) + col;
        let en = st + n;
        if en > usize::MAX {
            None
        } else if st < en && en > s.len() {
            None
        } else {
            Some((st, en))
        }
    }
}

/// `s` without the range, when the range is not empty.
pub open spec fn remove_at(s: Seq<char>, r: (int, int)) -> Seq<char> {
    if r.0 < r.1 {
        cut(s, r.0, r.1)
    } else {
        s
    }
}

/// The text after undoing `e` on `s`, or `None` when undoing would fail.
pub open spec fn undo_text(e: Edit, s: Seq<char>) -> Option<Seq<char>>
    decreases e,
{
    match e.edit_type {
        EditType::Insert { line, col, text } => match range_at(s, line as int, col as int, text@.len() as int) {
            Some(r) => Some(remove_at(s, r)),
            None => None,
        },
        EditType::Delete { line, col, text } => Some(insert_spec(s, line as int, col as int, text@)),
        EditType::InsertLine { line, text } => Some(delete_line_spec(s, line as int)),
        EditType::DeleteLine { line, text } => if s == seq!['\n'] {
            Some(text@)
        } else {
            Some(insert_spec(s, line as int, 0, text@))
        },
        EditType::Replace { line, col, old_text, new_text } => match range_at(
            s,
            line as int,
            col as int,
            new_text@.len() as int,
        ) {
            Some(r) => Some(insert_spec(remove_at(s, r), line as int, col as int, old_text@)),
            None => None,
        },
        EditType::Merge { line, deleted_newline_col } => Some(
            insert_spec(
                s,
                if line >= 1 { line - 1 } else { 0 },
                deleted_newline_col as int,
                seq!['\n'],
            ),
        ),
        EditType::Split { line, col } => match range_at(s, line as int, col as int, 0) {
            Some(r) => if r.0 < s.len() && r.0 > 0 {
                Some(cut(s, r.0, r.0 + 1))
            } else {
                Some(s)
            },
            None => None,
        },
        EditType::Group { edits } => undo_seq(edits@, s),
    }
}

/// Undoing a sequence of edits, the last one first.
pub open spec fn undo_seq(es: Seq<Edit>, s: Seq<char>) -> Option<Seq<char>>
    decreases es,
{
    if es.len() == 0 {
        Some(s)
    } else {
        match undo_text(es.last(), s) {
            Some(s1) => undo_seq(es.drop_last(), s1),
            None => None,
        }
    }
}

/// The text after redoing `e` on `s`, or `None` when redoing would fail.
pub open spec fn redo_text(e: Edit, s: Seq<char>) -> Option<Seq<char>>
    decreases e,
{
    match e.edit_type {
        EditType::Insert { line, col, text } => Some(insert_spec(s, line as int, col as int, text@)),
        EditType::Delete { line, col, text } => match range_at(s, line as int, col as int, text@.len() as int) {
            Some(r) => Some(remove_at(s, r)),
            None => None,
        },
        EditType::InsertLine { line, text } => Some(
            insert_spec(
                insert_spec(s, line as int, 0, text@),
                line as int,
                (encode_utf8(text@).len() as usize) as int,
                seq!['\n'],
            ),
        ),
        EditType::DeleteLine { line, text } => Some(delete_line_spec(s, line as int)),
        EditType::Replace { line, col, old_text, new_text } => match range_at(
            s,
            line as int,
            col as int,
            old_text@.len() as int,
        ) {
            Some(r) => Some(insert_spec(remove_at(s, r), line as int, col as int, new_text@)),
            None => None,
        },
        EditType::Merge { line, deleted_newline_col } => Some(merge_spec(s, line as int)),
        EditType::Split { line, col } => Some(insert_spec(s, line as int, col as int, seq!['\n'])),
        EditType::Group { edits } => redo_seq(edits@, s),
    }
}

/// Redoing a sequence of edits, the first one first.
pub open spec fn redo_seq(es: Seq<Edit>, s: Seq<char>) -> Option<Seq<char>>
    decreases es,
{
    if es.len() == 0 {
        Some(s)
    } else {
        match redo_text(es.first(), s) {
            Some(s1) => redo_seq(es.drop_first(), s1),
            None => None,
        }
    }
}

/// Undoes `edit` on `buffer`.
fn apply_undo(buffer: &mut TextBuffer, edit: &Edit)
    requires
        undo_text(*edit, old(buffer).text()) is Some,
    ensures
        final(buffer).text() == undo_text(*edit, old(buffer).text()).unwrap(),
        final(buffer).path() == old(buffer).path(),
        final(buffer).saved() == old(buffer).saved(),
    decreases edit,
{
    match &edit.edit_type {
        EditType::Insert { line, col, text } => {
            let start = buffer.line_to_char(line - 1) + col;
            let end = start + text.as_str().unicode_len();
            buffer.remove_range(start, end);
        },
        EditType::Delete { line, col, text } => {
            buffer.insert(*line, *col, text.as_str());
        },
        EditType::InsertLine { line, text: _ } => {
            buffer.delete_line(*line);
        },
        EditType::DeleteLine { line, text } => {
            let whole = buffer.to_string();
            if crate::buffer::is_single_newline(whole.as_str()) {
                buffer.replace_with(text.as_str());
            } else {
                buffer.insert(*line, 0, text.as_str());
            }
        },
        EditType::Replace { line, col, old_text, new_text } => {
            let start = buffer.line_to_char(line - 1) + col;
            let end = start + new_text.as_str().unicode_len();
            buffer.remove_range(start, end);
            buffer.insert(*line, *col, old_text.as_str());
        },
        EditType::Merge { line, deleted_newline_col } => {
            let line_idx = line.saturating_sub(1);
            proof {
                reveal_strlit("\n");
                assert("\n"@ =~= seq!['\n']);
            }
            buffer.insert(line_idx, *deleted_newline_col, "\n");
        },
        EditType::Split { line, col } => {
            let start = buffer.line_to_char(line - 1) + col;
            if start < buffer.len_chars() && start > 0 {
                buffer.remove_range(start, start + 1);
            }
        },
        EditType::Group { edits } => {
            let ghost s0 = buffer.text();
            let mut i = edits.len();
            proof {
                assert(edits@.take(edits@.len() as int) =~= edits@);
            }
            while i > 0
                invariant
                    0 <= i <= edits@.len(),
                    edit.edit_type == (EditType::Group { edits: *edits }),
                    undo_seq(edits@.take(i as int), buffer.text()) == undo_text(*edit, s0),
                    undo_text(*edit, s0) is Some,
                    buffer.path() == old(buffer).path(),
                    buffer.saved() == old(buffer).saved(),
                decreases i,
            {
                let ghost t = buffer.text();
                proof {
                    assert(decreases_to!(*edit => edit.edit_type));
                    assert(decreases_to!(edit.edit_type => edit.edit_type->edits));
                    assert(decreases_to!(*edits => edits[i - 1]));
                    assert(edits@.take(i as int).last() == edits@[i - 1]);
                    assert(edits@.take(i as int).drop_last() =~= edits@.take(i - 1));
                }
                apply_undo(buffer, &edits[i - 1]);
                i -= 1;
            }
            proof {
                assert(edits@.take(0) =~= Seq::<Edit>::empty());
            }
        },
    }
}

/// Redoes `edit` on `buffer`.
fn apply_redo(buffer: &mut TextBuffer, edit: &Edit)
    requires
        redo_text(*edit, old(buffer).text()) is Some,
    ensures
        final(buffer).text() == redo_text(*edit, old(buffer).text()).unwrap(),
        final(buffer).path() == old(buffer).path(),
        final(buffer).saved() == old(buffer).saved(),
    decreases edit,
{
    match &edit.edit_type {
        EditType::Insert { line, col, text } => {
            buffer.insert(*line, *col, text.as_str());
        },
        EditType::Delete { line, col, text } => {
            let start = buffer.line_to_char(line - 1) + col;
            let end = start + text.as_str().unicode_len();
            buffer.remove_range(start, end);
        },
        EditType::InsertLine { line, text } => {
            buffer.insert(*line, 0, text.as_str());
            proof {
                reveal_strlit("\n");
                assert("\n"@ =~= seq!['\n']);
            }
            buffer.insert(*line, text.as_str().len(), "\n");
        },
        EditType::DeleteLine { line, text: _ } => {
            buffer.delete_line(*line);
        },
        EditType::Replace { line, col, old_text, new_text } => {
            let start = buffer.line_to_char(line - 1) + col;
            let end = start + old_text.as_str().unicode_len();
            buffer.remove_range(start, end);
            buffer.insert(*line, *col, new_text.as_str());
        },
        EditType::Merge { line, deleted_newline_col: _ } => {
            buffer.merge_with_prev_line(*line);
        },
        EditType::Split { line, col } => {
            proof {
                reveal_strlit("\n");
                assert("\n"@ =~= seq!['\n']);
            }
            buffer.insert(*line, *col, "\n");
        },
        EditType::Group { edits } => {
            let ghost s0 = buffer.text();
            let mut i: usize = 0;
            proof {
                assert(edits@.skip(0) =~= edits@);
            }
            while i < edits.len()
                invariant
                    0 <= i <= edits@.len(),
                    edit.edit_type == (EditType::Group { edits: *edits }),
                    redo_seq(edits@.skip(i as int), buffer.text()) == redo_text(*edit, s0),
                    redo_text(*edit, s0) is Some,
                    buffer.path() == old(buffer).path(),
                    buffer.saved() == old(buffer).saved(),
                decreases edits@.len() - i,
            {
                proof {
                    assert(decreases_to!(*edit => edit.edit_type));
                    assert(decreases_to!(edit.edit_type => edit.edit_type->edits));
                    assert(decreases_to!(*edits => edits[i as int]));
                    assert(edits@.skip(i as int).first() == edits@[i as int]);
                    assert(edits@.skip(i as int).drop_first() =~= edits@.skip(i + 1));
                }
                apply_redo(buffer, &edits[i]);
                i += 1;
            }
            proof {
                assert(edits@.skip(edits@.len() as int) =~= Seq::<Edit>::empty());
            }
        },
    }
}

} // verus!

verus! {

/// A node in the undo tree.
struct UndoNode {
    edit: Edit,
    parent: Option<usize>,
    children: Vec<usize>,
}

/// Maximum number of nodes before the oldest leaf is dropped from the tree.
pub const UNDO_MAX_SIZE: usize = 1000;

/// Tree-based undo manager. Node 0 is an empty root; `current` is the node
/// whose edit was applied last.
pub struct UndoManager {
    nodes: Vec<UndoNode>,
    current: usize,
    max_size: usize,
}

fn root_edit() -> (e: Edit)
    ensures
        e.edit_type matches EditType::Group { edits } && edits@.len() == 0,
        e.cursor_before == (Position { line: 1, col: 0 }),
        e.cursor_after == (Position { line: 1, col: 0 }),
        e.modification_count == 0,
{
    Edit {
        edit_type: EditType::Group { edits: Vec::new() },
        cursor_before: Position { line: 1, col: 0 },
        cursor_after: Position { line: 1, col: 0 },
        modification_count: 0,
    }
}

/// `s` without the entries equal to `x`, in order.
pub open spec fn without(s: Seq<usize>, x: int) -> Seq<usize>
    decreases s.len(),
{
    if s.len() == 0 {
        s
    } else if s.last() as int == x {
        without(s.drop_last(), x)
    } else {
        without(s.drop_last(), x).push(s.last())
    }
}

/// `n` holds the same tree as `o`: the same nodes with the same edits,
/// parents and children; only the current node may differ.
pub open spec fn same_tree(o: UndoManager, n: UndoManager) -> bool {
    &&& n.node_count() == o.node_count()
    &&& forall|i: int|
        0 <= i < o.node_count() ==> #[trigger] n.edit_of(i) == o.edit_of(i) && n.parent_of(i) == o.parent_of(i)
            && n.children_of(i) == o.children_of(i)
}

/// The first node from `i` on, other than the current one, that has no
/// children.
pub open spec fn first_leaf(u: UndoManager, i: int) -> Option<int>
    decreases u.node_count() - i,
{
    if i < 0 || i >= u.node_count() {
        None
    } else if u.children_of(i).len() == 0 && i != u.current() {
        Some(i)
    } else {
        first_leaf(u, i + 1)
    }
}

/// `n` is `o` with node `idx` detached: `idx` has no children left; its
/// parent (when it has one, and is not `idx` itself) forgets it and takes
/// its children on after its own, and they get that parent; nothing else
/// changes.
pub open spec fn detached(o: UndoManager, n: UndoManager, idx: int) -> bool {
    let cnt = o.node_count() as int;
    let kids = o.children_of(idx);
    &&& n.node_count() == o.node_count()
    &&& n.current() == o.current()
    &&& forall|i: int| 0 <= i < cnt ==> #[trigger] n.edit_of(i) == o.edit_of(i)
    &&& n.children_of(idx).len() == 0
    &&& match o.parent_of(idx) {
        Some(p) => {
            &&& p != idx ==> n.children_of(p as int) == without(o.children_of(p as int), idx) + kids
            &&& forall|i: int| 0 <= i < cnt && i != p && i != idx ==> #[trigger] n.children_of(i) == o.children_of(i)
            &&& forall|i: int|
                0 <= i < cnt ==> #[trigger] n.parent_of(i) == if kids.contains(i as usize) {
                    Some(p)
                } else {
                    o.parent_of(i)
                }
        },
        None => forall|i: int|
            0 <= i < cnt && i != idx ==> #[trigger] n.children_of(i) == o.children_of(i) && n.parent_of(i)
                == o.parent_of(i),
    }
}

/// The entries of `pc` other than `idx`, then those of `kids`.
fn without_then(pc: &Vec<usize>, idx: usize, kids: &Vec<usize>, n: usize) -> (r: Vec<usize>)
    requires
        forall|j: int| 0 <= j < pc@.len() ==> 1 <= #[trigger] pc@[j] < n,
        forall|j: int| 0 <= j < kids@.len() ==> 1 <= #[trigger] kids@[j] < n,
    ensures
        r@ == without(pc@, idx as int) + kids@,
        forall|j: int| 0 <= j < r@.len() ==> 1 <= #[trigger] r@[j] < n,
{
    let mut kept: Vec<usize> = Vec::new();
    let mut k: usize = 0;
    proof {
        assert(kept@ =~= without(pc@.take(0), idx as int));
    }
    while k < pc.len()
        invariant
            0 <= k <= pc@.len(),
            kept@ == without(pc@.take(k as int), idx as int),
            forall|j: int| 0 <= j < kept@.len() ==> 1 <= #[trigger] kept@[j] < n,
            forall|j: int| 0 <= j < pc@.len() ==> 1 <= #[trigger] pc@[j] < n,
        decreases pc@.len() - k,
    {
        let c = pc[k];
        proof {
            assert(pc@.take(k + 1).drop_last() =~= pc@.take(k as int));
            assert(pc@.take(k + 1).last() == c);
        }
        if c != idx {
            kept.push(c);
        }
        k += 1;
    }
    proof {
        assert(pc@.take(k as int) =~= pc@);
    }
    let ghost kept0 = kept@;
    let mut m: usize = 0;
    proof {
        assert(kept@ =~= kept0 + kids@.take(0));
    }
    while m < kids.len()
        invariant
            0 <= m <= kids@.len(),
            kept@ == kept0 + kids@.take(m as int),
            forall|j: int| 0 <= j < kept@.len() ==> 1 <= #[trigger] kept@[j] < n,
            forall|j: int| 0 <= j < kids@.len() ==> 1 <= #[trigger] kids@[j] < n,
        decreases kids@.len() - m,
    {
        kept.push(kids[m]);
        proof {
            assert(kept@ =~= kept0 + kids@.take(m + 1));
        }
        m += 1;
    }
    proof {
        assert(kids@.take(m as int) =~= kids@);
    }
    kept
}

/// `n` is `o` with `e` pushed: a new current node holding `e`, whose parent
/// is the node that was current.
pub open spec fn pushed(o: UndoManager, n: UndoManager, e: Edit) -> bool {
    &&& n.current() == o.node_count()
    &&& n.node_count() == o.node_count() + 1
    &&& n.edit_of(n.current() as int) == e
    &&& n.parent_of(n.current() as int) == Some(o.current() as usize)
}

impl UndoManager {
    /// Well-formedness: a root, a current node, and links that stay inside the tree.
    pub closed spec fn wf(&self) -> bool {
        &&& self.nodes@.len() >= 1
        &&& self.current < self.nodes@.len()
        &&& self.max_size == UNDO_MAX_SIZE
        &&& self.nodes@[0].parent is None
        &&& forall|i: int| 0 < i < self.nodes@.len() ==> (#[trigger] self.nodes@[i].parent) is Some
        &&& forall|i: int|
            0 <= i < self.nodes@.len() ==> (#[trigger] self.nodes@[i].parent matches Some(p) ==> p
                < self.nodes@.len())
        &&& forall|i: int, j: int|
            0 <= i < self.nodes@.len() && 0 <= j < self.nodes@[i].children@.len() ==> 1
                <= #[trigger] self.nodes@[i].children@[j] < self.nodes@.len()
    }

    /// Number of nodes (removed ones included: indices stay stable).
    pub closed spec fn node_count(&self) -> nat {
        self.nodes@.len()
    }

    pub closed spec fn current(&self) -> nat {
        self.current as nat
    }

    pub closed spec fn edit_of(&self, i: int) -> Edit {
        self.nodes@[i].edit
    }

    pub closed spec fn parent_of(&self, i: int) -> Option<usize> {
        self.nodes@[i].parent
    }

    pub closed spec fn children_of(&self, i: int) -> Seq<usize> {
        self.nodes@[i].children@
    }

    pub open spec fn at_root(&self) -> bool {
        self.current() == 0
    }

    /// Number of nodes.
    pub fn node_len(&self) -> (r: usize)
        ensures
            r == self.node_count(),
    {
        self.nodes.len()
    }

    /// The current node's index is a machine word.
    pub proof fn lemma_current_fits(&self)
        ensures
            self.current() <= usize::MAX,
    {
    }

    /// A node's parent is a node of the tree.
    pub proof fn lemma_parent_in_range(&self, i: int)
        requires
            self.wf(),
            0 <= i < self.node_count(),
        ensures
            self.parent_of(i) matches Some(p) ==> p < self.node_count(),
    {
    }

    pub fn new() -> (m: Self)
        ensures
            m.wf(),
            m.at_root(),
            m.node_count() == 1,
            m.children_of(0).len() == 0,
            m.parent_of(0) is None,
    {
        let mut nodes = Vec::new();
        nodes.push(UndoNode { edit: root_edit(), parent: None, children: Vec::new() });
        UndoManager { nodes, current: 0, max_size: UNDO_MAX_SIZE }
    }

    /// Adds `edit` as a new child of the current node and makes it current;
    /// past the size limit the oldest other leaf is detached from the tree.
    pub fn push(&mut self, edit: Edit)
        requires
            old(self).wf(),
        ensures
            final(self).wf(),
            pushed(*old(self), *final(self), edit),
            final(self).current() == old(self).node_count(),
            final(self).node_count() == old(self).node_count() + 1,
            final(self).edit_of(final(self).current() as int) == edit,
            final(self).parent_of(final(self).current() as int) == Some(old(self).current() as usize),
            final(self).children_of(final(self).current() as int).len() == 0,
            old(self).node_count() + 1 <= UNDO_MAX_SIZE ==> final(self).children_of(
                old(self).current() as int,
            ) == old(self).children_of(old(self).current() as int).push(
                old(self).node_count() as usize,
            ),
            forall|i: int| 0 <= i < old(self).node_count() ==> #[trigger] final(self).edit_of(i) == old(self).edit_of(i),
            old(self).node_count() + 1 <= UNDO_MAX_SIZE ==> forall|i: int|
                0 <= i < old(self).node_count() ==> #[trigger] final(self).parent_of(i) == old(self).parent_of(i),
            old(self).node_count() + 1 <= UNDO_MAX_SIZE ==> forall|i: int|
                0 <= i < old(self).node_count() && i != old(self).current() ==> #[trigger] final(self).children_of(i)
                    == old(self).children_of(i),
    {
        let new_idx = self.nodes.len();
        let cur = self.current;
        self.nodes.push(UndoNode { edit, parent: Some(cur), children: Vec::new() });
        let mut node = self.nodes.remove(cur);
        node.children.push(new_idx);
        self.nodes.insert(cur, node);
        self.current = new_idx;
        proof {
            assert forall|i: int| 0 <= i < self.nodes@.len() implies (#[trigger] self.nodes@[i].parent matches Some(p) ==> p < self.nodes@.len()) by {
                if i != cur && i != new_idx {
                    assert(self.nodes@[i] == old(self).nodes@[i]);
                }
            }
            assert forall|i: int, j: int| 0 <= i < self.nodes@.len() && 0 <= j < self.nodes@[i].children@.len() implies 1 <= #[trigger] self.nodes@[i].children@[j] < self.nodes@.len() by {
                if i != cur && i != new_idx {
                    assert(self.nodes@[i] == old(self).nodes@[i]);
                }
            }
        }
        if self.nodes.len() > self.max_size {
            self.evict_oldest();
        }
    }

    /// Detaches the first leaf other than the root and the current node.
    fn evict_oldest(&mut self)
        requires
            old(self).wf(),
        ensures
            final(self).wf(),
            final(self).current() == old(self).current(),
            final(self).node_count() == old(self).node_count(),
            final(self).children_of(final(self).current() as int).len() == 0 <== old(self).children_of(old(self).current() as int).len() == 0,
            forall|i: int| 0 <= i < old(self).node_count() ==> #[trigger] final(self).edit_of(i) == old(self).edit_of(i),
            old(self).children_of(old(self).current() as int).len() == 0 ==> final(self).parent_of(final(self).current() as int) == old(self).parent_of(old(self).current() as int),
            match first_leaf(*old(self), 1) {
                Some(i) => detached(*old(self), *final(self), i),
                None => *final(self) == *old(self),
            },
    {
        let mut i: usize = 1;
        while i < self.nodes.len()
            invariant
                self.wf(),
                self == old(self),
                1 <= i,
                first_leaf(*old(self), 1) == first_leaf(*old(self), i as int),
            decreases self.nodes@.len() - i,
        {
            if self.nodes[i].children.len() == 0 && i != self.current {
                self.remove_node(i);
                return;
            }
            i += 1;
        }
    }

    /// Gives every node in `kids` the parent `p`.
    fn reparent(&mut self, kids: &Vec<usize>, p: usize)
        requires
            old(self).wf(),
            p < old(self).nodes@.len(),
            forall|j: int| 0 <= j < kids@.len() ==> 1 <= #[trigger] kids@[j] < old(self).nodes@.len(),
        ensures
            final(self).wf(),
            final(self).current == old(self).current,
            final(self).nodes@.len() == old(self).nodes@.len(),
            forall|i: int| 0 <= i < old(self).nodes@.len() ==> #[trigger] final(self).nodes@[i].edit == old(self).nodes@[i].edit,
            forall|i: int| 0 <= i < old(self).nodes@.len() ==> #[trigger] final(self).nodes@[i].children@ == old(self).nodes@[i].children@,
            forall|i: int|
                0 <= i < old(self).nodes@.len() ==> #[trigger] final(self).nodes@[i].parent == if kids@.contains(i as usize) {
                    Some(p)
                } else {
                    old(self).nodes@[i].parent
                },
    {
        let ghost n = self.nodes@.len();
        let ghost after_p = self.nodes@;
        let ghost kidsv = kids@;
        let nn = self.nodes.len();
        let mut m2: usize = 0;
        while m2 < kids.len()
            invariant
                0 <= m2 <= kids@.len(),
                n == nn,
                kids@ == kidsv,
                self.nodes@.len() == n,
                n == old(self).nodes@.len(),
                after_p == old(self).nodes@,
                p < n,
                forall|j: int| 0 <= j < kids@.len() ==> 1 <= #[trigger] kids@[j] < n,
                self.wf(),
                self.current == old(self).current,
                forall|i: int| 0 <= i < n ==> #[trigger] self.nodes@[i].edit == after_p[i].edit,
                forall|i: int| 0 <= i < n ==> #[trigger] self.nodes@[i].children@ == after_p[i].children@,
                forall|i: int|
                    0 <= i < n ==> #[trigger] self.nodes@[i].parent == if kidsv.take(m2 as int).contains(i as usize) {
                        Some(p)
                    } else {
                        after_p[i].parent
                    },
            decreases kids@.len() - m2,
        {
            let c = kids[m2];
            let ghost before = self.nodes@;
            let mut cnode = self.nodes.remove(c);
            let ghost old_c = cnode;
            cnode.parent = Some(p);
            self.nodes.insert(c, cnode);
            proof {
                assert(self.nodes@ =~= before.update(c as int, cnode));
                assert(cnode.children == old_c.children);
                assert(old_c == before[c as int]);
                assert(kidsv[m2 as int] == c);
                assert forall|i: int| 0 <= i < n implies (#[trigger] self.nodes@[i].parent matches Some(q) ==> q < n) by {
                    if i != c {
                        assert(self.nodes@[i] == before[i]);
                    }
                }
                assert forall|i: int, j: int| 0 <= i < n && 0 <= j < self.nodes@[i].children@.len() implies 1 <= #[trigger] self.nodes@[i].children@[j] < n by {
                    if i != c {
                        assert(self.nodes@[i] == before[i]);
                    } else {
                        assert(self.nodes@[i].children@[j] == before[i].children@[j]);
                    }
                }
                assert forall|i: int| 0 <= i < n implies #[trigger] self.nodes@[i].edit == after_p[i].edit by {
                    if i != c {
                        assert(self.nodes@[i] == before[i]);
                    }
                }
                assert forall|i: int| 0 <= i < n implies #[trigger] self.nodes@[i].children@ == after_p[i].children@ by {
                    if i != c {
                        assert(self.nodes@[i] == before[i]);
                    }
                }
                assert forall|i: int|
                    0 <= i < n implies #[trigger] self.nodes@[i].parent == if kidsv.take(m2 + 1).contains(i as usize) {
                        Some(p)
                    } else {
                        after_p[i].parent
                    } by {
                    if i != c {
                        assert(self.nodes@[i] == before[i]);
                        if kidsv.take(m2 + 1).contains(i as usize) {
                            let w = choose|w: int| 0 <= w < m2 + 1 && #[trigger] kidsv.take(m2 + 1)[w] == i as usize;
                            assert(kidsv.take(m2 + 1)[w] == kidsv[w]);
                            if w == m2 {
                                assert(kidsv[w] == c);
                                assert(i == c as int);
                            }
                            assert(kidsv.take(m2 as int)[w] == kidsv[w]);
                            assert(kidsv.take(m2 as int).contains(i as usize));
                        }
                        if kidsv.take(m2 as int).contains(i as usize) {
                            let w = choose|w: int| 0 <= w < m2 && #[trigger] kidsv.take(m2 as int)[w] == i as usize;
                            assert(kidsv.take(m2 + 1)[w] == i as usize);
                        }
                    } else {
                        assert(kidsv.take(m2 + 1)[m2 as int] == c);
                    }
                }
            }
            m2 += 1;
        }
        proof {
            assert(kidsv.take(m2 as int) =~= kidsv);
        }
    }

    /// Detaches node `idx`: its parent forgets it and adopts its children.
    /// The node keeps its index (indices stay stable) but has no children.
    #[verifier::spinoff_prover]
    #[verifier::rlimit(60)]
    fn remove_node(&mut self, idx: usize)
        requires
            old(self).wf(),
            idx != old(self).current(),
            idx != 0,
        ensures
            final(self).wf(),
            final(self).current() == old(self).current(),
            final(self).node_count() == old(self).node_count(),
            forall|i: int|
                0 <= i < old(self).node_count() ==> #[trigger] final(self).edit_of(i) == old(
                    self,
                ).edit_of(i),
            old(self).children_of(idx as int).len() == 0 ==> final(self).parent_of(
                final(self).current() as int,
            ) == old(self).parent_of(old(self).current() as int),
            old(self).children_of(idx as int).len() == 0 && old(self).children_of(
                old(self).current() as int,
            ).len() == 0 ==> final(self).children_of(final(self).current() as int).len() == 0,
            idx < old(self).node_count() ==> detached(*old(self), *final(self), idx as int),
            idx >= old(self).node_count() ==> *final(self) == *old(self),
    {
        if idx >= self.nodes.len() {
            return;
        }
        let ghost on = self.nodes@;
        let ghost cur = self.current as int;
        let parent = self.nodes[idx].parent;
        let mut node = self.nodes.remove(idx);
        let mut children: Vec<usize> = Vec::new();
        std::mem::swap(&mut children, &mut node.children);
        self.nodes.insert(idx, node);
        let ghost n = on.len();
        let ghost kids = children@;
        proof {
            assert(children@ == on[idx as int].children@);
            assert forall|j: int| 0 <= j < children@.len() implies 1 <= #[trigger] children@[j] < n by {
                assert(1 <= on[idx as int].children@[j] < n);
            }
            assert forall|i: int| 0 <= i < n && i != idx implies #[trigger] self.nodes@[i] == on[i] by {}
            assert(self.nodes@[idx as int].children@.len() == 0);
        }
        let nlen = self.nodes.len();
        if let Some(p) = parent {
            let mut pnode = self.nodes.remove(p);
            let ghost pc = pnode.children@;
            proof {
                assert forall|j: int| 0 <= j < pnode.children@.len() implies 1 <= #[trigger] pnode.children@[j] < n by {
                    if p != idx {
                        assert(pnode == on[p as int]);
                        assert(1 <= on[p as int].children@[j] < n);
                    }
                }
                if p == idx {
                    assert(pc.len() == 0);
                } else {
                    assert(pc == on[p as int].children@);
                }
            }
            let kept = without_then(&pnode.children, idx, &children, nlen);
            let ghost old_p = pnode;
            pnode.children = kept;
            self.nodes.insert(p, pnode);
            proof {
                assert forall|i: int| 0 <= i < n && i != p implies #[trigger] self.nodes@[i].edit == on[i].edit && self.nodes@[i].parent == on[i].parent by {
                    if i != idx {
                        assert(self.nodes@[i] == on[i]);
                    }
                }
                assert(self.nodes@[p as int].parent == on[p as int].parent);
                assert(self.wf());
            }
            proof {
                assert(forall|j: int| 0 <= j < children@.len() ==> 1 <= #[trigger] children@[j] < n);
            }
            let ghost after_p = self.nodes@;
            self.reparent(&children, p);
            proof {
                assert forall|i: int| 0 <= i < n implies #[trigger] self.nodes@[i].edit == on[i].edit by {
                    assert(self.nodes@[i].edit == after_p[i].edit);
                    if i != p {
                        assert(after_p[i].edit == on[i].edit);
                    }
                }
            }
        }
        let ghost before_clear = self.nodes@;
        let mut last = self.nodes.remove(idx);
        last.children = Vec::new();
        self.nodes.insert(idx, last);
        proof {
            assert forall|i: int| 0 <= i < n && i != idx implies #[trigger] self.nodes@[i] == before_clear[i] by {}
            assert forall|i: int, j: int| 0 <= i < n && 0 <= j < self.nodes@[i].children@.len() implies 1 <= #[trigger] self.nodes@[i].children@[j] < n by {
                assert(i != idx);
                assert(self.nodes@[i] == before_clear[i]);
            }
            assert(self.children_of(idx as int) =~= Seq::<usize>::empty());
        }
    }
}

} // verus!

verus! {

impl UndoManager {
    /// Undoes the current edit on `buffer` and moves to its parent, whose
    /// modification count the buffer takes back. Nothing happens at the root.
    pub fn undo(&mut self, buffer: &mut TextBuffer) -> (r: Option<Edit>)
        requires
            old(self).wf(),
            !old(self).at_root() ==> undo_text(
                old(self).edit_of(old(self).current() as int),
                old(buffer).text(),
            ) is Some,
        ensures
            final(self).wf(),
            final(self).node_count() == old(self).node_count(),
            same_tree(*old(self), *final(self)),
            old(self).at_root() ==> r is None && *final(self) == *old(self) && *final(buffer) == *old(buffer),
            !old(self).at_root() ==> ({
                let e = old(self).edit_of(old(self).current() as int);
                &&& r matches Some(x) && same_edit(x, e)
                &&& final(buffer).text() == undo_text(e, old(buffer).text()).unwrap()
                &&& final(buffer).path() == old(buffer).path()
                &&& final(buffer).saved() == old(buffer).saved()
                &&& old(self).parent_of(old(self).current() as int) == Some(final(self).current() as usize)
                &&& final(buffer).mods() == e.modification_count
            }),
    {
        if self.current == 0 {
            return None;
        }
        let edit = clone_edit(&self.nodes[self.current].edit);
        apply_undo(buffer, &self.nodes[self.current].edit);
        if let Some(parent) = self.nodes[self.current].parent {
            self.current = parent;
            buffer.reset_modification_count(edit.modification_count);
        }
        Some(edit)
    }

    /// Redoes the last child of the current node (its most recent branch, as
    /// new branches are added after the others) and moves to it; the buffer
    /// takes that edit's modification count.
    pub fn redo(&mut self, buffer: &mut TextBuffer) -> (r: Option<Edit>)
        requires
            old(self).wf(),
            old(self).children_of(old(self).current() as int).len() > 0 ==> redo_text(
                old(self).edit_of(old(self).children_of(old(self).current() as int).last() as int),
                old(buffer).text(),
            ) is Some,
        ensures
            final(self).wf(),
            final(self).node_count() == old(self).node_count(),
            same_tree(*old(self), *final(self)),
            old(self).children_of(old(self).current() as int).len() == 0 ==> r is None
                && *final(self) == *old(self) && *final(buffer) == *old(buffer),
            old(self).children_of(old(self).current() as int).len() > 0 ==> ({
                let next = old(self).children_of(old(self).current() as int).last();
                let e = old(self).edit_of(next as int);
                &&& r matches Some(x) && same_edit(x, e)
                &&& final(self).current() == next
                &&& final(buffer).text() == redo_text(e, old(buffer).text()).unwrap()
                &&& final(buffer).mods() == e.modification_count
                &&& final(buffer).path() == old(buffer).path()
                &&& final(buffer).saved() == old(buffer).saved()
            }),
    {
        if self.nodes[self.current].children.len() == 0 {
            return None;
        }
        let k = self.nodes[self.current].children.len() - 1;
        let next = self.nodes[self.current].children[k];
        let edit = clone_edit(&self.nodes[next].edit);
        apply_redo(buffer, &self.nodes[next].edit);
        self.current = next;
        buffer.reset_modification_count(edit.modification_count);
        Some(edit)
    }

    /// Moves to `target` when it is the parent (undoing the target's edit)
    /// or a child (redoing it) of the current node; otherwise nothing happens.
    pub fn switch_branch(&mut self, buffer: &mut TextBuffer, target: usize) -> (r: Option<Edit>)
        requires
            old(self).wf(),
            target < old(self).node_count() && old(self).parent_of(old(self).current() as int)
                == Some(target) ==> undo_text(old(self).edit_of(target as int), old(buffer).text()) is Some,
            target < old(self).node_count() && old(self).children_of(old(self).current() as int).contains(target)
                ==> redo_text(old(self).edit_of(target as int), old(buffer).text()) is Some,
        ensures
            final(self).wf(),
            final(self).node_count() == old(self).node_count(),
            ({
                let valid = target < old(self).node_count() && target != old(self).current();
                let to_parent = valid && old(self).parent_of(old(self).current() as int) == Some(target);
                let to_child = valid && !to_parent && old(self).children_of(old(self).current() as int).contains(target);
                &&& !to_parent && !to_child ==> r is None && final(self).current() == old(self).current() && *final(buffer) == *old(buffer)
                &&& to_parent || to_child ==> {
                    let e = old(self).edit_of(target as int);
                    &&& r matches Some(x) && same_edit(x, e)
                    &&& final(self).current() == target
                    &&& final(buffer).mods() == e.modification_count
                    &&& final(buffer).path() == old(buffer).path()
                    &&& final(buffer).saved() == old(buffer).saved()
                    &&& final(buffer).text() == if to_parent {
                        undo_text(e, old(buffer).text()).unwrap()
                    } else {
                        redo_text(e, old(buffer).text()).unwrap()
                    }
                }
            }),
    {
        if target >= self.nodes.len() || target == self.current {
            return None;
        }
        let edit = clone_edit(&self.nodes[target].edit);
        if self.nodes[self.current].parent == Some(target) {
            apply_undo(buffer, &self.nodes[target].edit);
            self.current = target;
            buffer.reset_modification_count(edit.modification_count);
            return Some(edit);
        }
        if vec_contains(&self.nodes[self.current].children, target) {
            apply_redo(buffer, &self.nodes[target].edit);
            self.current = target;
            buffer.reset_modification_count(edit.modification_count);
            return Some(edit);
        }
        None
    }

    /// The parent of the current node (for `g-`).
    pub fn parent_node(&self) -> (r: Option<usize>)
        requires
            self.wf(),
        ensures
            r == self.parent_of(self.current() as int),
    {
        self.nodes[self.current].parent
    }

    /// The first child of the current node (for `g+`).
    pub fn first_child_node(&self) -> (r: Option<usize>)
        requires
            self.wf(),
        ensures
            self.children_of(self.current() as int).len() == 0 ==> r is None,
            self.children_of(self.current() as int).len() > 0 ==> r == Some(
                self.children_of(self.current() as int)[0],
            ),
    {
        if self.nodes[self.current].children.len() > 0 {
            Some(self.nodes[self.current].children[0])
        } else {
            None
        }
    }

    /// Forgets all history (used when switching buffers).
    pub fn clear(&mut self)
        ensures
            final(self).wf(),
            final(self).at_root(),
            final(self).node_count() == 1,
            final(self).children_of(0).len() == 0,
            final(self).parent_of(0) is None,
    {
        let mut nodes = Vec::new();
        nodes.push(UndoNode { edit: root_edit(), parent: None, children: Vec::new() });
        self.nodes = nodes;
        self.current = 0;
        self.max_size = UNDO_MAX_SIZE;
    }
}

impl Default for UndoManager {
    fn default() -> (m: Self)
        ensures
            m.wf(),
            m.at_root(),
            m.node_count() == 1,
            m.children_of(0).len() == 0,
    {
        UndoManager::new()
    }
}

/// Whether `v` holds `x`.
pub fn vec_contains(v: &Vec<usize>, x: usize) -> (r: bool)
    ensures
        r == v@.contains(x),
{
    let mut i: usize = 0;
    while i < v.len()
        invariant
            0 <= i <= v@.len(),
            forall|j: int| 0 <= j < i ==> v@[j] != x,
        decreases v@.len() - i,
    {
        if v[i] == x {
            return true;
        }
        i += 1;
    }
    false
}

} // verus!

verus! {

/// Undoing an insertion made at a column inside the text gives back the
/// text as it was, and redoing it then gives the edited text again. (The
/// insertion must not follow a CR directly, or a text starting with LF would
/// fuse with it into one line break.)
pub proof fn lemma_undo_insert_restores(s: Seq<char>, e: Edit)
    requires
        e.edit_type matches EditType::Insert { line, col, text } && {
            &&& 1 <= line <= line_count(s)
            &&& col <= line_len(s, line - 1)
            &&& line_start(s, line - 1) + col == 0 || s[line_start(s, line - 1) + col - 1] != '\r'
            &&& s.len() + text@.len() <= usize::MAX
        },
    ensures
        redo_text(e, s) matches Some(s1) && undo_text(e, s1) == Some(s) && redo_text(e, s) == Some(s1),
{
    if let EditType::Insert { line, col, text } = e.edit_type {
        let k = line - 1;
        lemma_line_bounds(s, k);
        let p = line_start(s, k) + col;
        let t = text@;
        let s1 = splice(s, p, t);
        assert(insert_spec(s, line as int, col as int, t) == s1);
        assert(s1.take(p) =~= s.take(p));
        if p > 0 {
            assert(s1[p - 1] == s[p - 1]);
        }
        lemma_line_start_stable(s, s1, p, k);
        assert(range_at(s1, line as int, col as int, t.len() as int) == Some((p, p + t.len())));
        if t.len() > 0 {
            assert(cut(s1, p, p + t.len()) =~= s);
        } else {
            assert(s1 =~= s);
        }
    }
}

/// An insertion, or a deletion or replacement of characters inside a line
/// (before its last character, or anywhere on a last line), at a position
/// of `s` that does not directly follow a CR.
pub open spec fn restorable(e: Edit, s: Seq<char>) -> bool {
    match e.edit_type {
        EditType::Insert { line, col, text } => {
            &&& 1 <= line <= line_count(s)
            &&& col <= line_len(s, line - 1)
            &&& line_start(s, line - 1) + col == 0 || s[line_start(s, line - 1) + col - 1] != '\r'
            &&& s.len() + text@.len() <= usize::MAX
        },
        EditType::Delete { line, col, text } => {
            let p = line_start(s, line - 1) + col;
            &&& 1 <= line <= line_count(s)
            &&& p + text@.len() < crate::text::line_end(s, line - 1) || (line == line_count(s) && p
                + text@.len() <= s.len())
            &&& s.subrange(p, p + text@.len()) == text@
            &&& p == 0 || s[p - 1] != '\r'
            &&& p + text@.len() <= usize::MAX
        },
        EditType::Replace { line, col, old_text, new_text } => {
            let p = line_start(s, line - 1) + col;
            &&& 1 <= line <= line_count(s)
            &&& p + old_text@.len() < crate::text::line_end(s, line - 1) || (line == line_count(s) && p
                + old_text@.len() <= s.len())
            &&& s.subrange(p, p + old_text@.len()) == old_text@
            &&& p == 0 || s[p - 1] != '\r'
            &&& p + old_text@.len() <= usize::MAX
            &&& s.len() - old_text@.len() + new_text@.len() <= usize::MAX
        },
        _ => false,
    }
}

/// Undo right after an edit was made on `s` and pushed: the history is not
/// at its root, the edit to undo is the one pushed, undoing it on the
/// edited text gives `s` back, and the node that was current before the
/// push becomes current again (for an insertion, or a deletion or
/// replacement inside a line, not directly after a CR).
pub proof fn lemma_undo_after_push_restores(o: UndoManager, n: UndoManager, e: Edit, s: Seq<char>)
    requires
        o.wf(),
        pushed(o, n, e),
        restorable(e, s),
    ensures
        !n.at_root(),
        n.edit_of(n.current() as int) == e,
        redo_text(e, s) matches Some(s1) && undo_text(n.edit_of(n.current() as int), s1) == Some(s),
        n.parent_of(n.current() as int) == Some(o.current() as usize),
{
    match e.edit_type {
        EditType::Insert { .. } => lemma_undo_insert_restores(s, e),
        EditType::Delete { .. } => lemma_undo_delete_restores(s, e),
        EditType::Replace { .. } => lemma_undo_replace_restores(s, e),
        _ => {},
    }
}

/// Undoing a replacement of characters inside a line (before its last
/// character, or anywhere on a last line) gives back the text as it was:
/// the new text goes and the old text comes back. (The replacement must not
/// follow a CR directly.)
pub proof fn lemma_undo_replace_restores(s: Seq<char>, e: Edit)
    requires
        e.edit_type matches EditType::Replace { line, col, old_text, new_text } && {
            let p = line_start(s, line - 1) + col;
            &&& 1 <= line <= line_count(s)
            &&& p + old_text@.len() < crate::text::line_end(s, line - 1) || (line == line_count(s) && p
                + old_text@.len() <= s.len())
            &&& s.subrange(p, p + old_text@.len()) == old_text@
            &&& p == 0 || s[p - 1] != '\r'
            &&& p + old_text@.len() <= usize::MAX
            &&& s.len() - old_text@.len() + new_text@.len() <= usize::MAX
        },
    ensures
        redo_text(e, s) matches Some(s2) && undo_text(e, s2) == Some(s),
{
    if let EditType::Replace { line, col, old_text, new_text } = e.edit_type {
        let k = line - 1;
        let p = line_start(s, k) + col;
        let ed = Edit { edit_type: EditType::Delete { line, col, text: old_text }, ..e };
        lemma_undo_delete_restores(s, ed);
        let s1 = redo_text(ed, s)->Some_0;
        assert(redo_text(e, s) == Some(insert_spec(s1, line as int, col as int, new_text@)));
        let ei = Edit { edit_type: EditType::Insert { line, col, text: new_text }, ..e };
        lemma_line_bounds(s1, k);
        if p > 0 {
            assert(s1[p - 1] == s1.take(p)[p - 1]);
            assert(s[p - 1] == s.take(p)[p - 1]);
        }
        lemma_undo_insert_restores(s1, ei);
        let s2 = redo_text(ei, s1)->Some_0;
        assert(redo_text(e, s) == Some(s2));
        assert(undo_text(e, s2) == Some(insert_spec(s1, line as int, col as int, old_text@)));
        assert(undo_text(ed, s1) == Some(insert_spec(s1, line as int, col as int, old_text@)));
    }
}

/// Redo after undo comes back to the edit just undone, when that edit is
/// the most recent branch below its parent (as it is right after it was
/// made): undo keeps the tree, so the parent's last child is still the
/// undone node, and its edit is unchanged.
pub proof fn lemma_redo_after_undo(o: UndoManager, m1: UndoManager)
    requires
        o.wf(),
        !o.at_root(),
        same_tree(o, m1),
        o.parent_of(o.current() as int) == Some(m1.current() as usize),
        o.children_of(m1.current() as int).len() > 0,
        o.children_of(m1.current() as int).last() == o.current(),
    ensures
        m1.children_of(m1.current() as int).len() > 0,
        m1.children_of(m1.current() as int).last() == o.current(),
        m1.edit_of(o.current() as int) == o.edit_of(o.current() as int),
{
    assert(m1.current() < o.node_count()) by {
        o.lemma_parent_in_range(o.current() as int);
    }
    assert(m1.edit_of(m1.current() as int) == o.edit_of(m1.current() as int));
    assert(m1.edit_of(o.current() as int) == o.edit_of(o.current() as int));
}

/// Undoing a deletion of characters inside a line (before its last
/// character, or anywhere on a last line) gives back the text as it was.
/// (The deletion must not follow a CR directly, or what comes after could
/// fuse with it into one line break.)
pub proof fn lemma_undo_delete_restores(s: Seq<char>, e: Edit)
    requires
        e.edit_type matches EditType::Delete { line, col, text } && {
            let p = line_start(s, line - 1) + col;
            &&& 1 <= line <= line_count(s)
            &&& p + text@.len() < crate::text::line_end(s, line - 1) || (line == line_count(s) && p + text@.len() <= s.len())
            &&& s.subrange(p, p + text@.len()) == text@
            &&& p == 0 || s[p - 1] != '\r'
            &&& p + text@.len() <= usize::MAX
        },
    ensures
        redo_text(e, s) matches Some(s1) && undo_text(e, s1) == Some(s),
        e.edit_type matches EditType::Delete { line, col, text } ==> redo_text(e, s) matches Some(s1) && {
            let k = line - 1;
            let p = line_start(s, k) + col;
            &&& k < line_count(s1)
            &&& line_start(s1, k) == line_start(s, k)
            &&& crate::text::line_end(s1, k) >= p
            &&& s1.take(p) == s.take(p)
            &&& s1.len() + text@.len() == s.len()
        },
{
    if let EditType::Delete { line, col, text } = e.edit_type {
        let k = line - 1;
        lemma_line_bounds(s, k);
        let p = line_start(s, k) + col;
        let n = text@.len() as int;
        assert(range_at(s, line as int, col as int, n) == Some((p, p + n)));
        let s1 = remove_at(s, (p, p + n));
        assert(s1.take(p) =~= s.take(p));
        if p > 0 {
            assert(s1[p - 1] == s[p - 1]);
        }
        lemma_line_start_stable(s, s1, p, k);
        if k + 1 < line_count(s1) {
            lemma_line_bounds(s1, k);
            if crate::text::line_end(s1, k) < p {
                lemma_line_start_stable(s1, s, p, k + 1);
                lemma_line_bounds(s, k);
            }
        }
        assert(crate::text::line_end(s1, k) >= p);
        lemma_line_bounds(s1, k);
        assert(insert_spec(s1, line as int, col as int, text@) == splice(s1, p, text@));
        assert(splice(s1, p, text@) =~= s);
    }
}

} // verus!

verus! {

/// Whether `range_at(buffer text, line, col, n)` exists.
fn range_ok(buffer: &TextBuffer, line: usize, col: usize, n: usize) -> (r: bool)
    ensures
        r == (range_at(buffer.text(), line as int, col as int, n as int) is Some),
{
    if line < 1 {
        return false;
    }
    let lc = buffer.line_count();
    if line - 1 > lc {
        return false;
    }
    let ls = buffer.line_to_char(line - 1);
    if col > usize::MAX - ls {
        return false;
    }
    let st = ls + col;
    if n > usize::MAX - st {
        return false;
    }
    let en = st + n;
    !(st < en && en > buffer.len_chars())
}

/// Undoes `edit` on `buffer` when that succeeds (`undo_text` is `Some`),
/// and says whether it did.
fn try_undo_on(buffer: &mut TextBuffer, edit: &Edit) -> (r: bool)
    ensures
        r == (undo_text(*edit, old(buffer).text()) is Some),
        r ==> final(buffer).text() == undo_text(*edit, old(buffer).text()).unwrap(),
    decreases edit,
{
    match &edit.edit_type {
        EditType::Insert { line, col, text } => {
            if !range_ok(buffer, *line, *col, text.as_str().unicode_len()) {
                return false;
            }
        },
        EditType::Replace { line, col, old_text: _, new_text } => {
            if !range_ok(buffer, *line, *col, new_text.as_str().unicode_len()) {
                return false;
            }
        },
        EditType::Split { line, col } => {
            if !range_ok(buffer, *line, *col, 0) {
                return false;
            }
        },
        EditType::Group { edits } => {
            let ghost s0 = buffer.text();
            let mut i = edits.len();
            proof {
                assert(edits@.take(edits@.len() as int) =~= edits@);
            }
            while i > 0
                invariant
                    0 <= i <= edits@.len(),
                    edit.edit_type == (EditType::Group { edits: *edits }),
                    undo_seq(edits@.take(i as int), buffer.text()) == undo_text(*edit, s0),
                    s0 == old(buffer).text(),
                decreases i,
            {
                proof {
                    assert(decreases_to!(*edit => edit.edit_type));
                    assert(decreases_to!(edit.edit_type => edit.edit_type->edits));
                    assert(decreases_to!(*edits => edits[i - 1]));
                    assert(edits@.take(i as int).last() == edits@[i - 1]);
                    assert(edits@.take(i as int).drop_last() =~= edits@.take(i - 1));
                }
                let ghost t = buffer.text();
                if !try_undo_on(buffer, &edits[i - 1]) {
                    proof {
                        assert(undo_seq(edits@.take(i as int), t) is None);
                    }
                    return false;
                }
                i -= 1;
            }
            proof {
                assert(edits@.take(0) =~= Seq::<Edit>::empty());
            }
            return true;
        },
        _ => {},
    }
    apply_undo(buffer, edit);
    true
}

/// Redoes `edit` on `buffer` when that succeeds (`redo_text` is `Some`),
/// and says whether it did.
fn try_redo_on(buffer: &mut TextBuffer, edit: &Edit) -> (r: bool)
    ensures
        r == (redo_text(*edit, old(buffer).text()) is Some),
        r ==> final(buffer).text() == redo_text(*edit, old(buffer).text()).unwrap(),
    decreases edit,
{
    match &edit.edit_type {
        EditType::Delete { line, col, text } => {
            if !range_ok(buffer, *line, *col, text.as_str().unicode_len()) {
                return false;
            }
        },
        EditType::Replace { line, col, old_text, new_text: _ } => {
            if !range_ok(buffer, *line, *col, old_text.as_str().unicode_len()) {
                return false;
            }
        },
        EditType::Group { edits } => {
            let ghost s0 = buffer.text();
            let mut i: usize = 0;
            proof {
                assert(edits@.skip(0) =~= edits@);
            }
            while i < edits.len()
                invariant
                    0 <= i <= edits@.len(),
                    edit.edit_type == (EditType::Group { edits: *edits }),
                    redo_seq(edits@.skip(i as int), buffer.text()) == redo_text(*edit, s0),
                    s0 == old(buffer).text(),
                decreases edits@.len() - i,
            {
                proof {
                    assert(decreases_to!(*edit => edit.edit_type));
                    assert(decreases_to!(edit.edit_type => edit.edit_type->edits));
                    assert(decreases_to!(*edits => edits[i as int]));
                    assert(edits@.skip(i as int).first() == edits@[i as int]);
                    assert(edits@.skip(i as int).drop_first() =~= edits@.skip(i + 1));
                }
                let ghost t = buffer.text();
                if !try_redo_on(buffer, &edits[i]) {
                    proof {
                        assert(redo_seq(edits@.skip(i as int), t) is None);
                    }
                    return false;
                }
                i += 1;
            }
            proof {
                assert(edits@.skip(i as int) =~= Seq::<Edit>::empty());
            }
            return true;
        },
        _ => {},
    }
    apply_redo(buffer, edit);
    true
}

impl UndoManager {
    /// Whether `undo` can undo the current edit on `buffer` (trivially so at
    /// the root). Works on a copy of the text.
    pub fn undo_applies(&self, buffer: &TextBuffer) -> (r: bool)
        requires
            self.wf(),
        ensures
            r == (!self.at_root() ==> undo_text(self.edit_of(self.current() as int), buffer.text()) is Some),
    {
        if self.current == 0 {
            return true;
        }
        let text = buffer.to_string();
        let mut scratch = TextBuffer::with_text(text.as_str());
        try_undo_on(&mut scratch, &self.nodes[self.current].edit)
    }

    /// Whether `redo` can redo the most recent branch below the current edit on
    /// `buffer` (trivially so when there is none). Works on a copy of the
    /// text.
    pub fn redo_applies(&self, buffer: &TextBuffer) -> (r: bool)
        requires
            self.wf(),
        ensures
            r == (self.children_of(self.current() as int).len() > 0 ==> redo_text(
                self.edit_of(self.children_of(self.current() as int).last() as int),
                buffer.text(),
            ) is Some),
    {
        if self.nodes[self.current].children.len() == 0 {
            return true;
        }
        let k = self.nodes[self.current].children.len() - 1;
        let next = self.nodes[self.current].children[k];
        let text = buffer.to_string();
        let mut scratch = TextBuffer::with_text(text.as_str());
        try_redo_on(&mut scratch, &self.nodes[next].edit)
    }
}

} // verus!
