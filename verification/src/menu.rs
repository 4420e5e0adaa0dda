use vstd::prelude::*;
use vstd::string::StrSliceExecFns;
use crate::error::MenuError;

verus! {

/// One step of cursor navigation inside a node's viewport.
#[derive(Debug, Clone, Copy, PartialEq, Eq, Structural)]
pub enum CursorMove {
    Up,
    Down,
    Left,
    Right,
}

/// What selecting the highlighted entry of a node reports to the caller:
/// either a submenu to open, or a leaf that was activated.
#[derive(Debug, Clone, Copy, PartialEq, Eq, Structural)]
pub enum SelectOutcome {
    /// The cursor sits on a child that is itself a menu: the caller should
    /// open it (push it onto the stack).
    EnteredSubmenu(usize),
    /// The cursor sits on a leaf entry: the caller should act on it.
    ActivatedLeaf(usize),
}

/// One menu node: a named, numbered entry that either is a leaf or has
/// children, with a local 2D navigation cursor bounded by its viewport.
///
/// Children live in the owning [`MenuTree`] arena and are addressed by
/// handle; this node keeps their display names in insertion order next to
/// the matching handles.
pub struct MenuNode {
    pub name: String,
    pub id: i32,
    pub viz_width: usize,
    pub viz_height: usize,
    pub child_keys: Vec<String>,
    pub child_handles: Vec<usize>,
    pub is_enabled: bool,
    pub is_leaf: bool,
    pub cell_width: usize,
    pub cursor_x: usize,
    pub cursor_y: usize,
}

impl MenuNode {
    /// The child names in insertion order.
    pub open spec fn child_names(self) -> Seq<Seq<char>> {
        self.child_keys@.map_values(|k: String| k@)
    }

    /// Whether a direct child carries this display name.
    pub open spec fn has_child_name(self, name: Seq<char>) -> bool {
        exists|i: int|
            0 <= i < self.child_keys@.len() && (#[trigger] self.child_keys@[i])@ == name
    }

    /// The position of `name` in the key order. Meaningful only when the
    /// name is present; with unique sibling names it is the one index.
    pub open spec fn key_index(self, name: Seq<char>) -> int {
        choose|i: int|
            0 <= i < self.child_keys@.len() && (#[trigger] self.child_keys@[i])@ == name
    }

    /// The name-keyed child mapping: each direct child's display name to
    /// its handle. Membership always agrees with the key order.
    pub open spec fn child_map(self) -> Map<Seq<char>, usize> {
        Map::new(
            |n: Seq<char>| self.has_child_name(n),
            |n: Seq<char>| self.child_handles@[self.key_index(n)],
        )
    }

    /// Node-local well-formedness: keys and handles run in parallel,
    /// sibling names are unique, and a leaf has no children.
    pub open spec fn wf(self) -> bool {
        &&& self.child_keys@.len() == self.child_handles@.len()
        &&& forall|i: int, j: int|
            0 <= i < j < self.child_keys@.len() ==> (#[trigger] self.child_keys@[i])@ != (
            #[trigger] self.child_keys@[j])@
        &&& (self.is_leaf ==> self.child_keys@.len() == 0)
    }

    /// The name, key order and child handles are equal: only per-node
    /// display or navigation state (viewport, cursor, id, flags, cached
    /// width) may differ.
    pub open spec fn same_structure(self, other: MenuNode) -> bool {
        &&& self.name@ == other.name@
        &&& self.child_keys@ == other.child_keys@
        &&& self.child_handles@ == other.child_handles@
    }
}

/// Where the cursor lands after one move: one cell per step, saturating at
/// zero on the low side and at the last viewport cell on the high side,
/// never wrapping. An empty viewport extent leaves that axis alone.
pub open spec fn move_cursor(x: nat, y: nat, vw: nat, vh: nat, m: CursorMove) -> (nat, nat) {
    match m {
        CursorMove::Up => (x, if y == 0 { 0 } else { (y - 1) as nat }),
        CursorMove::Down => (
            x,
            if y + 1 < vh {
                y + 1
            } else if vh > 0 {
                (vh - 1) as nat
            } else {
                y
            },
        ),
        CursorMove::Left => (if x == 0 { 0 } else { (x - 1) as nat }, y),
        CursorMove::Right => (
            if x + 1 < vw {
                x + 1
            } else if vw > 0 {
                (vw - 1) as nat
            } else {
                x
            },
            y,
        ),
    }
}

/// The cursor after a whole sequence of moves, applied left to right.
pub open spec fn apply_moves(x: nat, y: nat, vw: nat, vh: nat, moves: Seq<CursorMove>) -> (
    nat,
    nat,
)
    decreases moves.len(),
{
    if moves.len() == 0 {
        (x, y)
    } else {
        let stepped = move_cursor(x, y, vw, vh, moves[0]);
        apply_moves(stepped.0, stepped.1, vw, vh, moves.drop_first())
    }
}

/// The arena that owns every menu node. Handles are indices into `nodes`;
/// the stack and all lookups speak in handles, so no node is ever aliased
/// or copied.
pub struct MenuTree {
    pub nodes: Vec<MenuNode>,
}

impl MenuTree {
    /// Tree-wide well-formedness: every node is well formed, every child
    /// handle points past its parent and into the arena (so ownership runs
    /// strictly forward and can never cycle), the stored key of each child
    /// is that child's name, and no node is owned twice.
    pub open spec fn wf(self) -> bool {
        &&& forall|h: int| 0 <= h < self.nodes@.len() ==> (#[trigger] self.nodes@[h]).wf()
        &&& forall|h: int, j: int|
            0 <= h < self.nodes@.len() && 0 <= j < self.nodes@[h].child_handles@.len() ==> h < (
            #[trigger] self.nodes@[h].child_handles@[j]) as int && (
            self.nodes@[h].child_handles@[j]) < self.nodes@.len()
        &&& forall|h: int, j: int|
            0 <= h < self.nodes@.len() && 0 <= j < self.nodes@[h].child_handles@.len()
                ==> self.nodes@[(#[trigger] self.nodes@[h].child_handles@[j]) as int].name@ == (
            self.nodes@[h].child_keys@[j])@
        &&& forall|h1: int, j1: int, h2: int, j2: int|
            0 <= h1 < self.nodes@.len() && 0 <= j1 < self.nodes@[h1].child_handles@.len() && 0
                <= h2 < self.nodes@.len() && 0 <= j2 < self.nodes@[h2].child_handles@.len() && (
            #[trigger] self.nodes@[h1].child_handles@[j1]) == (
            #[trigger] self.nodes@[h2].child_handles@[j2]) ==> h1 == h2 && j1 == j2
    }

    /// An empty arena with no nodes.
    pub fn new() -> (t: MenuTree)
        ensures
            t.wf(),
            t.nodes@.len() == 0,
    {
        MenuTree { nodes: Vec::new() }
    }

    /// Creates a detached node (a fresh root): named, numbered, enabled,
    /// a leaf with no children, viewport and cursor at zero. Returns its
    /// handle.
    pub fn new_node(&mut self, name: &str, id: i32) -> (h: usize)
        requires
            old(self).wf(),
        ensures
            final(self).wf(),
            h == old(self).nodes@.len(),
            final(self).nodes@.len() == old(self).nodes@.len() + 1,
            forall|i: int|
                0 <= i < old(self).nodes@.len() ==> final(self).nodes@[i] == old(self).nodes@[i],
            ({
                let node = final(self).nodes@[h as int];
                &&& node.name@ == name@
                &&& node.id == id
                &&& node.viz_width == 0
                &&& node.viz_height == 0
                &&& node.child_keys@.len() == 0
                &&& node.child_handles@.len() == 0
                &&& node.is_enabled == true
                &&& node.is_leaf == true
                &&& node.cell_width == 0
                &&& node.cursor_x == 0
                &&& node.cursor_y == 0
            }),
    {
        let h = self.nodes.len();
        let node = MenuNode {
            name: name.to_owned(),
            id,
            viz_width: 0,
            viz_height: 0,
            child_keys: Vec::new(),
            child_handles: Vec::new(),
            is_enabled: true,
            is_leaf: true,
            cell_width: 0,
            cursor_x: 0,
            cursor_y: 0,
        };
        self.nodes.push(node);
        h
    }

    /// Appends a fresh child named `name` with id `id` under `parent`,
    /// keeping the key order and the name map in step: the new name goes to
    /// the end of the key order and maps to the new node's handle, and the
    /// parent stops being a leaf. A sibling with the same name is rejected
    /// with `NameCollision` and leaves the whole tree exactly as it was; an
    /// unknown parent handle reports `NotFound`.
    pub fn add_child(&mut self, parent: usize, name: &str, id: i32) -> (r: Result<
        usize,
        MenuError,
    >)
        requires
            old(self).wf(),
        ensures
            final(self).wf(),
            parent as int >= old(self).nodes@.len() ==> r == Err::<usize, MenuError>(
                MenuError::NotFound,
            ) && *final(self) == *old(self),
            (parent as int) < old(self).nodes@.len() && old(self).nodes@[parent as int].has_child_name(
                name@,
            ) ==> r == Err::<usize, MenuError>(MenuError::NameCollision) && *final(self) == *old(
                self,
            ),
            (parent as int) < old(self).nodes@.len() && !old(
                self,
            ).nodes@[parent as int].has_child_name(name@) ==> ({
                let h = old(self).nodes@.len() as int;
                let oldp = old(self).nodes@[parent as int];
                let newp = final(self).nodes@[parent as int];
                let child = final(self).nodes@[h];
                &&& r == Ok::<usize, MenuError>(h as usize)
                &&& final(self).nodes@.len() == h + 1
                &&& forall|i: int|
                    0 <= i < h && i != parent as int ==> final(self).nodes@[i] == old(
                        self,
                    ).nodes@[i]
                &&& newp.child_names() == oldp.child_names().push(name@)
                &&& newp.child_keys@.len() == oldp.child_keys@.len() + 1
                &&& (newp.child_keys@[oldp.child_keys@.len() as int])@ == name@
                &&& forall|j: int|
                    0 <= j < oldp.child_keys@.len() ==> newp.child_keys@[j]
                        == oldp.child_keys@[j]
                &&& newp.child_handles@ == oldp.child_handles@.push(h as usize)
                &&& newp.is_leaf == false
                &&& newp.name@ == oldp.name@
                &&& newp.id == oldp.id
                &&& newp.viz_width == oldp.viz_width
                &&& newp.viz_height == oldp.viz_height
                &&& newp.is_enabled == oldp.is_enabled
                &&& newp.cell_width == oldp.cell_width
                &&& newp.cursor_x == oldp.cursor_x
                &&& newp.cursor_y == oldp.cursor_y
                &&& child.name@ == name@
                &&& child.id == id
                &&& child.is_leaf
                &&& child.child_keys@.len() == 0
                &&& child.child_handles@.len() == 0
                &&& child.is_enabled
                &&& child.viz_width == 0
                &&& child.viz_height == 0
                &&& child.cell_width == 0
                &&& child.cursor_x == 0
                &&& child.cursor_y == 0
            }),
    {
        if parent >= self.nodes.len() {
            return Err(MenuError::NotFound);
        }
        let key = name.to_owned();
        let klen = self.nodes[parent].child_keys.len();
        let mut i: usize = 0;
        while i < klen
            invariant
                old(self).wf(),
                *self == *old(self),
                (parent as int) < self.nodes@.len(),
                klen == self.nodes@[parent as int].child_keys@.len(),
                i <= klen,
                key@ == name@,
                forall|k: int|
                    0 <= k < i ==> (#[trigger] self.nodes@[parent as int].child_keys@[k])@
                        != name@,
            decreases klen - i,
        {
            if self.nodes[parent].child_keys[i] == key {
                return Err(MenuError::NameCollision);
            }
            i += 1;
        }
        proof {
            assert(!old(self).nodes@[parent as int].has_child_name(name@));
        }
        let h = self.nodes.len();
        let child = MenuNode {
            name: key,
            id,
            viz_width: 0,
            viz_height: 0,
            child_keys: Vec::new(),
            child_handles: Vec::new(),
            is_enabled: true,
            is_leaf: true,
            cell_width: 0,
            cursor_x: 0,
            cursor_y: 0,
        };
        self.nodes.push(child);
        let parent_key = name.to_owned();
        self.nodes[parent].child_keys.push(parent_key);
        self.nodes[parent].child_handles.push(h);
        self.nodes[parent].is_leaf = false;
        proof {
            let t0 = *old(self);
            let tf = *self;
            let p = parent as int;
            let hh = h as int;
            let oldp = t0.nodes@[p];
            let newp = tf.nodes@[p];
            assert(newp.child_names() =~= oldp.child_names().push(name@));
            assert forall|h2: int| 0 <= h2 < tf.nodes@.len() implies (
            #[trigger] tf.nodes@[h2]).wf() by {
                if h2 == p {
                    assert forall|a: int, b: int|
                        0 <= a < b < newp.child_keys@.len() implies (
                    #[trigger] newp.child_keys@[a])@ != (#[trigger] newp.child_keys@[b])@ by {
                        if b < newp.child_keys@.len() - 1 {
                            assert(oldp.child_keys@[a]@ != oldp.child_keys@[b]@);
                        } else {
                            assert(oldp.child_keys@[a]@ != name@);
                        }
                    };
                } else if h2 == hh {
                } else {
                    assert(tf.nodes@[h2] == t0.nodes@[h2]);
                }
            };
            assert forall|h2: int, j: int|
                0 <= h2 < tf.nodes@.len() && 0 <= j < tf.nodes@[h2].child_handles@.len() implies h2
                < (#[trigger] tf.nodes@[h2].child_handles@[j]) as int && (
            tf.nodes@[h2].child_handles@[j]) < tf.nodes@.len() by {
                if h2 == p && j == newp.child_handles@.len() - 1 {
                } else if h2 == p {
                    assert(tf.nodes@[h2].child_handles@[j] == oldp.child_handles@[j]);
                } else if h2 != hh {
                    assert(tf.nodes@[h2] == t0.nodes@[h2]);
                }
            };
            assert forall|h2: int, j: int|
                0 <= h2 < tf.nodes@.len() && 0 <= j < tf.nodes@[h2].child_handles@.len() implies
                tf.nodes@[(#[trigger] tf.nodes@[h2].child_handles@[j]) as int].name@ == (
            tf.nodes@[h2].child_keys@[j])@ by {
                if h2 == p && j == newp.child_handles@.len() - 1 {
                    assert(tf.nodes@[hh].name@ == name@);
                } else if h2 == p {
                    assert(tf.nodes@[h2].child_handles@[j] == oldp.child_handles@[j]);
                    assert(tf.nodes@[h2].child_keys@[j] == oldp.child_keys@[j]);
                    let c = oldp.child_handles@[j] as int;
                    assert(p < c < t0.nodes@.len());
                    assert(tf.nodes@[c].name@ == t0.nodes@[c].name@);
                } else if h2 != hh {
                    assert(tf.nodes@[h2] == t0.nodes@[h2]);
                    let c = t0.nodes@[h2].child_handles@[j] as int;
                    assert(h2 < c < t0.nodes@.len());
                    assert(tf.nodes@[c].name@ == t0.nodes@[c].name@);
                }
            };
            assert forall|h1: int, j1: int, h2: int, j2: int|
                0 <= h1 < tf.nodes@.len() && 0 <= j1 < tf.nodes@[h1].child_handles@.len() && 0 <= h2
                < tf.nodes@.len() && 0 <= j2 < tf.nodes@[h2].child_handles@.len() && (
            #[trigger] tf.nodes@[h1].child_handles@[j1]) == (
            #[trigger] tf.nodes@[h2].child_handles@[j2]) implies h1 == h2 && j1 == j2 by {
                let v1 = tf.nodes@[h1].child_handles@[j1];
                let is_new1 = h1 == p && j1 == newp.child_handles@.len() - 1;
                let is_new2 = h2 == p && j2 == newp.child_handles@.len() - 1;
                if is_new1 && is_new2 {
                } else if is_new1 || is_new2 {
                    if is_new1 {
                        if h2 == p {
                            assert(tf.nodes@[h2].child_handles@[j2] == oldp.child_handles@[j2]);
                            assert((oldp.child_handles@[j2]) < t0.nodes@.len());
                        } else {
                            assert(h2 != hh);
                            assert(tf.nodes@[h2] == t0.nodes@[h2]);
                            assert((t0.nodes@[h2].child_handles@[j2]) < t0.nodes@.len());
                        }
                        assert(v1 == hh);
                        assert(false);
                    } else {
                        if h1 == p {
                            assert(tf.nodes@[h1].child_handles@[j1] == oldp.child_handles@[j1]);
                            assert((oldp.child_handles@[j1]) < t0.nodes@.len());
                        } else {
                            assert(h1 != hh);
                            assert(tf.nodes@[h1] == t0.nodes@[h1]);
                            assert((t0.nodes@[h1].child_handles@[j1]) < t0.nodes@.len());
                        }
                        assert(false);
                    }
                } else {
                    if h1 == p {
                        assert(tf.nodes@[h1].child_handles@[j1] == oldp.child_handles@[j1]);
                    } else {
                        assert(h1 != hh);
                        assert(tf.nodes@[h1] == t0.nodes@[h1]);
                    }
                    if h2 == p {
                        assert(tf.nodes@[h2].child_handles@[j2] == oldp.child_handles@[j2]);
                    } else {
                        assert(h2 != hh);
                        assert(tf.nodes@[h2] == t0.nodes@[h2]);
                    }
                    assert(t0.nodes@[h1].child_handles@[j1] == t0.nodes@[h2].child_handles@[j2]);
                }
            };
        }
        Ok(h)
    }

    /// Looks a direct child up by display name: its handle, or `NotFound`.
    /// The result always agrees with the name-keyed child map.
    pub fn find_child_by_name(&self, parent: usize, name: &str) -> (r: Result<usize, MenuError>)
        requires
            self.wf(),
        ensures
            parent as int >= self.nodes@.len() ==> r == Err::<usize, MenuError>(
                MenuError::NotFound,
            ),
            (parent as int) < self.nodes@.len() ==> ({
                let node = self.nodes@[parent as int];
                &&& (r is Ok <==> node.has_child_name(name@))
                &&& (node.has_child_name(name@) ==> r == Ok::<usize, MenuError>(
                    node.child_map()[name@],
                ))
                &&& (!node.has_child_name(name@) ==> r == Err::<usize, MenuError>(
                    MenuError::NotFound,
                ))
            }),
    {
        if parent >= self.nodes.len() {
            return Err(MenuError::NotFound);
        }
        let key = name.to_owned();
        let klen = self.nodes[parent].child_keys.len();
        let mut i: usize = 0;
        while i < klen
            invariant
                self.wf(),
                (parent as int) < self.nodes@.len(),
                klen == self.nodes@[parent as int].child_keys@.len(),
                i <= klen,
                key@ == name@,
                forall|k: int|
                    0 <= k < i ==> (#[trigger] self.nodes@[parent as int].child_keys@[k])@
                        != name@,
            decreases klen - i,
        {
            if self.nodes[parent].child_keys[i] == key {
                proof {
                    let node = self.nodes@[parent as int];
                    assert(node.has_child_name(name@));
                    let ki = node.key_index(name@);
                    assert(0 <= ki < node.child_keys@.len() && node.child_keys@[ki]@ == name@);
                    assert(ki == i as int);
                    assert(node.child_map()[name@] == node.child_handles@[i as int]);
                }
                return Ok(self.nodes[parent].child_handles[i]);
            }
            i += 1;
        }
        Err(MenuError::NotFound)
    }

    /// Looks a direct child up by id: the handle of the first child in key
    /// order whose id matches, or `NotFound`. Only this one level is
    /// searched, never the whole subtree.
    pub fn find_child_by_id(&self, parent: usize, child_id: i32) -> (r: Result<usize, MenuError>)
        requires
            self.wf(),
        ensures
            parent as int >= self.nodes@.len() ==> r == Err::<usize, MenuError>(
                MenuError::NotFound,
            ),
            (parent as int) < self.nodes@.len() ==> ({
                let node = self.nodes@[parent as int];
                &&& (r is Ok <==> exists|i: int|
                    0 <= i < node.child_handles@.len() && self.nodes@[(
                    #[trigger] node.child_handles@[i]) as int].id == child_id)
                &&& (r is Ok ==> exists|i: int|
                    {
                        &&& 0 <= i < node.child_handles@.len()
                        &&& self.nodes@[(#[trigger] node.child_handles@[i]) as int].id == child_id
                        &&& r == Ok::<usize, MenuError>(node.child_handles@[i])
                        &&& forall|j: int|
                            0 <= j < i ==> self.nodes@[(#[trigger] node.child_handles@[j]) as int].id
                                != child_id
                    })
                &&& (r is Err ==> r == Err::<usize, MenuError>(MenuError::NotFound))
            }),
    {
        if parent >= self.nodes.len() {
            return Err(MenuError::NotFound);
        }
        let klen = self.nodes[parent].child_handles.len();
        let mut i: usize = 0;
        while i < klen
            invariant
                self.wf(),
                (parent as int) < self.nodes@.len(),
                klen == self.nodes@[parent as int].child_handles@.len(),
                i <= klen,
                forall|j: int|
                    0 <= j < i ==> self.nodes@[(
                    #[trigger] self.nodes@[parent as int].child_handles@[j]) as int].id
                        != child_id,
            decreases klen - i,
        {
            let ch = self.nodes[parent].child_handles[i];
            if self.nodes[ch].id == child_id {
                return Ok(ch);
            }
            i += 1;
        }
        Err(MenuError::NotFound)
    }

    /// Marks the node as a container and stores the viewport extent used
    /// for cursor clamping: `width` columns by `height` rows.
    pub fn set_size(&mut self, h: usize, width: usize, height: usize) -> (r: Result<
        (),
        MenuError,
    >)
        requires
            old(self).wf(),
        ensures
            final(self).wf(),
            h as int >= old(self).nodes@.len() ==> r == Err::<(), MenuError>(MenuError::NotFound)
                && *final(self) == *old(self),
            (h as int) < old(self).nodes@.len() ==> {
                &&& r is Ok
                &&& final(self).nodes@ == old(self).nodes@.update(
                    h as int,
                    (MenuNode {
                        viz_width: width,
                        viz_height: height,
                        is_leaf: false,
                        ..old(self).nodes@[h as int]
                    }),
                )
            },
    {
        if h >= self.nodes.len() {
            return Err(MenuError::NotFound);
        }
        let ghost t0 = *self;
        self.nodes[h].viz_width = width;
        self.nodes[h].viz_height = height;
        self.nodes[h].is_leaf = false;
        proof {
            assert(self.nodes@ =~= t0.nodes@.update(
                h as int,
                (MenuNode {
                    viz_width: width,
                    viz_height: height,
                    is_leaf: false,
                    ..t0.nodes@[h as int]
                }),
            ));
            lemma_wf_after_local_update(t0, *self, h as int);
        }
        Ok(())
    }

    /// Enables or disables the node for input and display.
    pub fn set_enabled(&mut self, h: usize, enabled: bool) -> (r: Result<(), MenuError>)
        requires
            old(self).wf(),
        ensures
            final(self).wf(),
            h as int >= old(self).nodes@.len() ==> r == Err::<(), MenuError>(MenuError::NotFound)
                && *final(self) == *old(self),
            (h as int) < old(self).nodes@.len() ==> {
                &&& r is Ok
                &&& final(self).nodes@ == old(self).nodes@.update(
                    h as int,
                    (MenuNode { is_enabled: enabled, ..old(self).nodes@[h as int] }),
                )
            },
    {
        if h >= self.nodes.len() {
            return Err(MenuError::NotFound);
        }
        let ghost t0 = *self;
        self.nodes[h].is_enabled = enabled;
        proof {
            assert(self.nodes@ =~= t0.nodes@.update(
                h as int,
                (MenuNode { is_enabled: enabled, ..t0.nodes@[h as int] }),
            ));
            lemma_wf_after_local_update(t0, *self, h as int);
        }
        Ok(())
    }

    /// Replaces the node's numeric id. Ids are the caller's to keep unique.
    pub fn set_id(&mut self, h: usize, new_id: i32) -> (r: Result<(), MenuError>)
        requires
            old(self).wf(),
        ensures
            final(self).wf(),
            h as int >= old(self).nodes@.len() ==> r == Err::<(), MenuError>(MenuError::NotFound)
                && *final(self) == *old(self),
            (h as int) < old(self).nodes@.len() ==> {
                &&& r is Ok
                &&& final(self).nodes@ == old(self).nodes@.update(
                    h as int,
                    (MenuNode { id: new_id, ..old(self).nodes@[h as int] }),
                )
            },
    {
        if h >= self.nodes.len() {
            return Err(MenuError::NotFound);
        }
        let ghost t0 = *self;
        self.nodes[h].id = new_id;
        proof {
            assert(self.nodes@ =~= t0.nodes@.update(
                h as int,
                (MenuNode { id: new_id, ..t0.nodes@[h as int] }),
            ));
            lemma_wf_after_local_update(t0, *self, h as int);
        }
        Ok(())
    }

    /// The width the node's own title needs on screen: its name plus one
    /// cell of padding on either side (saturating at the machine limit).
    pub fn display_width(&self, h: usize) -> (r: Result<usize, MenuError>)
        requires
            self.wf(),
        ensures
            h as int >= self.nodes@.len() ==> r == Err::<usize, MenuError>(MenuError::NotFound),
            (h as int) < self.nodes@.len() ==> r == Ok::<usize, MenuError>(
                (if self.nodes@[h as int].name@.len() + 2 <= usize::MAX {
                    (self.nodes@[h as int].name@.len() + 2) as usize
                } else {
                    usize::MAX
                }),
            ),
    {
        if h >= self.nodes.len() {
            return Err(MenuError::NotFound);
        }
        let l = self.nodes[h].name.as_str().unicode_len();
        if l <= usize::MAX - 2 {
            Ok(l + 2)
        } else {
            Ok(usize::MAX)
        }
    }

    /// Recomputes the cached layout width from the current children: the
    /// length of the longest child name, zero when there are none. Call it
    /// again after adding children; the cache is not invalidated by itself.
    pub fn build(&mut self, h: usize) -> (r: Result<(), MenuError>)
        requires
            old(self).wf(),
        ensures
            final(self).wf(),
            h as int >= old(self).nodes@.len() ==> r == Err::<(), MenuError>(MenuError::NotFound)
                && *final(self) == *old(self),
            (h as int) < old(self).nodes@.len() ==> {
                &&& r is Ok
                &&& final(self).nodes@[h as int].cell_width as nat == max_name_len(
                    old(self).nodes@[h as int].child_names(),
                )
                &&& final(self).nodes@ == old(self).nodes@.update(
                    h as int,
                    (MenuNode {
                        cell_width: final(self).nodes@[h as int].cell_width,
                        ..old(self).nodes@[h as int]
                    }),
                )
            },
    {
        if h >= self.nodes.len() {
            return Err(MenuError::NotFound);
        }
        let ghost t0 = *self;
        let ghost names = self.nodes@[h as int].child_names();
        let klen = self.nodes[h].child_keys.len();
        let mut max_width: usize = 0;
        let mut i: usize = 0;
        while i < klen
            invariant
                *self == t0,
                t0.wf(),
                (h as int) < self.nodes@.len(),
                klen == self.nodes@[h as int].child_keys@.len(),
                names == self.nodes@[h as int].child_names(),
                i <= klen,
                max_width as nat == max_name_len(names.take(i as int)),
            decreases klen - i,
        {
            let l = self.nodes[h].child_keys[i].as_str().unicode_len();
            if l > max_width {
                max_width = l;
            }
            proof {
                assert(names.take(i as int + 1).drop_last() =~= names.take(i as int));
                assert(names.take(i as int + 1).last() == names[i as int]);
            }
            i += 1;
        }
        proof {
            assert(names.take(klen as int) =~= names);
        }
        self.nodes[h].cell_width = max_width;
        proof {
            assert(self.nodes@ =~= t0.nodes@.update(
                h as int,
                (MenuNode { cell_width: max_width, ..t0.nodes@[h as int] }),
            ));
            lemma_wf_after_local_update(t0, *self, h as int);
        }
        Ok(())
    }

    /// Moves the node's cursor one cell up, staying put at the top edge.
    pub fn on_up(&mut self, h: usize) -> (r: Result<(), MenuError>)
        requires
            old(self).wf(),
        ensures
            final(self).wf(),
            h as int >= old(self).nodes@.len() ==> r == Err::<(), MenuError>(MenuError::NotFound)
                && *final(self) == *old(self),
            (h as int) < old(self).nodes@.len() ==> {
                let node = old(self).nodes@[h as int];
                let c = move_cursor(
                    node.cursor_x as nat,
                    node.cursor_y as nat,
                    node.viz_width as nat,
                    node.viz_height as nat,
                    CursorMove::Up,
                );
                &&& r is Ok
                &&& final(self).nodes@ == old(self).nodes@.update(
                    h as int,
                    (MenuNode { cursor_x: c.0 as usize, cursor_y: c.1 as usize, ..node }),
                )
            },
    {
        if h >= self.nodes.len() {
            return Err(MenuError::NotFound);
        }
        let ghost t0 = *self;
        if self.nodes[h].cursor_y > 0 {
            self.nodes[h].cursor_y = self.nodes[h].cursor_y - 1;
        }
        proof {
            let node = t0.nodes@[h as int];
            let c = move_cursor(
                node.cursor_x as nat,
                node.cursor_y as nat,
                node.viz_width as nat,
                node.viz_height as nat,
                CursorMove::Up,
            );
            assert(self.nodes@ =~= t0.nodes@.update(
                h as int,
                (MenuNode { cursor_x: c.0 as usize, cursor_y: c.1 as usize, ..node }),
            ));
            lemma_wf_after_local_update(t0, *self, h as int);
        }
        Ok(())
    }

    /// Moves the node's cursor one cell down, saturating at the last
    /// viewport row.
    pub fn on_down(&mut self, h: usize) -> (r: Result<(), MenuError>)
        requires
            old(self).wf(),
        ensures
            final(self).wf(),
            h as int >= old(self).nodes@.len() ==> r == Err::<(), MenuError>(MenuError::NotFound)
                && *final(self) == *old(self),
            (h as int) < old(self).nodes@.len() ==> {
                let node = old(self).nodes@[h as int];
                let c = move_cursor(
                    node.cursor_x as nat,
                    node.cursor_y as nat,
                    node.viz_width as nat,
                    node.viz_height as nat,
                    CursorMove::Down,
                );
                &&& r is Ok
                &&& final(self).nodes@ == old(self).nodes@.update(
                    h as int,
                    (MenuNode { cursor_x: c.0 as usize, cursor_y: c.1 as usize, ..node }),
                )
            },
    {
        if h >= self.nodes.len() {
            return Err(MenuError::NotFound);
        }
        let ghost t0 = *self;
        let vh = self.nodes[h].viz_height;
        let y = self.nodes[h].cursor_y;
        if vh > 0 {
            if y < vh - 1 {
                self.nodes[h].cursor_y = y + 1;
            } else {
                self.nodes[h].cursor_y = vh - 1;
            }
        }
        proof {
            let node = t0.nodes@[h as int];
            let c = move_cursor(
                node.cursor_x as nat,
                node.cursor_y as nat,
                node.viz_width as nat,
                node.viz_height as nat,
                CursorMove::Down,
            );
            assert(self.nodes@ =~= t0.nodes@.update(
                h as int,
                (MenuNode { cursor_x: c.0 as usize, cursor_y: c.1 as usize, ..node }),
            ));
            lemma_wf_after_local_update(t0, *self, h as int);
        }
        Ok(())
    }

    /// Moves the node's cursor one cell left, staying put at the left edge.
    pub fn on_left(&mut self, h: usize) -> (r: Result<(), MenuError>)
        requires
            old(self).wf(),
        ensures
            final(self).wf(),
            h as int >= old(self).nodes@.len() ==> r == Err::<(), MenuError>(MenuError::NotFound)
                && *final(self) == *old(self),
            (h as int) < old(self).nodes@.len() ==> {
                let node = old(self).nodes@[h as int];
                let c = move_cursor(
                    node.cursor_x as nat,
                    node.cursor_y as nat,
                    node.viz_width as nat,
                    node.viz_height as nat,
                    CursorMove::Left,
                );
                &&& r is Ok
                &&& final(self).nodes@ == old(self).nodes@.update(
                    h as int,
                    (MenuNode { cursor_x: c.0 as usize, cursor_y: c.1 as usize, ..node }),
                )
            },
    {
        if h >= self.nodes.len() {
            return Err(MenuError::NotFound);
        }
        let ghost t0 = *self;
        if self.nodes[h].cursor_x > 0 {
            self.nodes[h].cursor_x = self.nodes[h].cursor_x - 1;
        }
        proof {
            let node = t0.nodes@[h as int];
            let c = move_cursor(
                node.cursor_x as nat,
                node.cursor_y as nat,
                node.viz_width as nat,
                node.viz_height as nat,
                CursorMove::Left,
            );
            assert(self.nodes@ =~= t0.nodes@.update(
                h as int,
                (MenuNode { cursor_x: c.0 as usize, cursor_y: c.1 as usize, ..node }),
            ));
            lemma_wf_after_local_update(t0, *self, h as int);
        }
        Ok(())
    }

    /// Moves the node's cursor one cell right, saturating at the last
    /// viewport column.
    pub fn on_right(&mut self, h: usize) -> (r: Result<(), MenuError>)
        requires
            old(self).wf(),
        ensures
            final(self).wf(),
            h as int >= old(self).nodes@.len() ==> r == Err::<(), MenuError>(MenuError::NotFound)
                && *final(self) == *old(self),
            (h as int) < old(self).nodes@.len() ==> {
                let node = old(self).nodes@[h as int];
                let c = move_cursor(
                    node.cursor_x as nat,
                    node.cursor_y as nat,
                    node.viz_width as nat,
                    node.viz_height as nat,
                    CursorMove::Right,
                );
                &&& r is Ok
                &&& final(self).nodes@ == old(self).nodes@.update(
                    h as int,
                    (MenuNode { cursor_x: c.0 as usize, cursor_y: c.1 as usize, ..node }),
                )
            },
    {
        if h >= self.nodes.len() {
            return Err(MenuError::NotFound);
        }
        let ghost t0 = *self;
        let vw = self.nodes[h].viz_width;
        let x = self.nodes[h].cursor_x;
        if vw > 0 {
            if x < vw - 1 {
                self.nodes[h].cursor_x = x + 1;
            } else {
                self.nodes[h].cursor_x = vw - 1;
            }
        }
        proof {
            let node = t0.nodes@[h as int];
            let c = move_cursor(
                node.cursor_x as nat,
                node.cursor_y as nat,
                node.viz_width as nat,
                node.viz_height as nat,
                CursorMove::Right,
            );
            assert(self.nodes@ =~= t0.nodes@.update(
                h as int,
                (MenuNode { cursor_x: c.0 as usize, cursor_y: c.1 as usize, ..node }),
            ));
            lemma_wf_after_local_update(t0, *self, h as int);
        }
        Ok(())
    }

    /// Reports which child the cursor sits on: the entries run one per
    /// viewport row in key order, so row `cursor_y` holds child number
    /// `cursor_y`. A child with children of its own comes back as a
    /// submenu to open, a childless one as an activated leaf; a cursor row
    /// past the last child reports `NotFound`.
    pub fn on_select(&self, h: usize) -> (r: Result<SelectOutcome, MenuError>)
        requires
            self.wf(),
        ensures
            h as int >= self.nodes@.len() ==> r == Err::<SelectOutcome, MenuError>(
                MenuError::NotFound,
            ),
            (h as int) < self.nodes@.len() ==> ({
                let node = self.nodes@[h as int];
                &&& node.cursor_y as int >= node.child_handles@.len() ==> r == Err::<
                    SelectOutcome,
                    MenuError,
                >(MenuError::NotFound)
                &&& (node.cursor_y as int) < node.child_handles@.len() ==> ({
                    let c = node.child_handles@[node.cursor_y as int];
                    &&& self.nodes@[c as int].is_leaf ==> r == Ok::<SelectOutcome, MenuError>(
                        SelectOutcome::ActivatedLeaf(c),
                    )
                    &&& !self.nodes@[c as int].is_leaf ==> r == Ok::<SelectOutcome, MenuError>(
                        SelectOutcome::EnteredSubmenu(c),
                    )
                })
            }),
    {
        if h >= self.nodes.len() {
            return Err(MenuError::NotFound);
        }
        let row = self.nodes[h].cursor_y;
        if row >= self.nodes[h].child_handles.len() {
            return Err(MenuError::NotFound);
        }
        let c = self.nodes[h].child_handles[row];
        if self.nodes[c].is_leaf {
            Ok(SelectOutcome::ActivatedLeaf(c))
        } else {
            Ok(SelectOutcome::EnteredSubmenu(c))
        }
    }
}

/// The longest name in a list of names; zero when the list is empty.
pub open spec fn max_name_len(names: Seq<Seq<char>>) -> nat
    decreases names.len(),
{
    if names.len() == 0 {
        0
    } else {
        let rest = max_name_len(names.drop_last());
        if names.last().len() > rest {
            names.last().len()
        } else {
            rest
        }
    }
}

/// A tree stays well formed when one node keeps its name, key order and
/// child handles, stays well formed itself, and nothing else changes.
proof fn lemma_wf_after_local_update(t1: MenuTree, t2: MenuTree, h: int)
    requires
        t1.wf(),
        0 <= h < t1.nodes@.len(),
        t2.nodes@.len() == t1.nodes@.len(),
        forall|i: int| 0 <= i < t1.nodes@.len() && i != h ==> t2.nodes@[i] == t1.nodes@[i],
        t2.nodes@[h].wf(),
        t2.nodes@[h].same_structure(t1.nodes@[h]),
    ensures
        t2.wf(),
{
    assert forall|h2: int| 0 <= h2 < t2.nodes@.len() implies (#[trigger] t2.nodes@[h2]).wf() by {
        if h2 != h {
            assert(t2.nodes@[h2] == t1.nodes@[h2]);
        }
        assert(t2.nodes@[h2].wf());
    };
    assert forall|h2: int, j: int|
        0 <= h2 < t2.nodes@.len() && 0 <= j < t2.nodes@[h2].child_handles@.len() implies h2 < (
    #[trigger] t2.nodes@[h2].child_handles@[j]) as int && (t2.nodes@[h2].child_handles@[j])
        < t2.nodes@.len() by {
        if h2 != h {
            assert(t2.nodes@[h2] == t1.nodes@[h2]);
        }
        assert(t2.nodes@[h2].child_handles@ == t1.nodes@[h2].child_handles@);
    };
    assert forall|h2: int, j: int|
        0 <= h2 < t2.nodes@.len() && 0 <= j < t2.nodes@[h2].child_handles@.len() implies
        t2.nodes@[(#[trigger] t2.nodes@[h2].child_handles@[j]) as int].name@ == (
    t2.nodes@[h2].child_keys@[j])@ by {
        if h2 != h {
            assert(t2.nodes@[h2] == t1.nodes@[h2]);
        }
        assert(t2.nodes@[h2].child_handles@ == t1.nodes@[h2].child_handles@);
        assert(t2.nodes@[h2].child_keys@ == t1.nodes@[h2].child_keys@);
        let c = t1.nodes@[h2].child_handles@[j] as int;
        assert(h2 < c < t1.nodes@.len());
        assert(t2.nodes@[c].name@ == t1.nodes@[c].name@);
    };
    assert forall|h1: int, j1: int, h2: int, j2: int|
        0 <= h1 < t2.nodes@.len() && 0 <= j1 < t2.nodes@[h1].child_handles@.len() && 0 <= h2
        < t2.nodes@.len() && 0 <= j2 < t2.nodes@[h2].child_handles@.len() && (
    #[trigger] t2.nodes@[h1].child_handles@[j1]) == (
    #[trigger] t2.nodes@[h2].child_handles@[j2]) implies h1 == h2 && j1 == j2 by {
        assert(t2.nodes@[h1].child_handles@ == t1.nodes@[h1].child_handles@);
        assert(t2.nodes@[h2].child_handles@ == t1.nodes@[h2].child_handles@);
    };
}

/// For any run of cursor moves, a cursor that starts inside the viewport
/// stays inside it: both coordinates saturate at the edges and never wrap.
pub proof fn lemma_cursor_moves_stay_in_bounds(
    x: nat,
    y: nat,
    vw: nat,
    vh: nat,
    moves: Seq<CursorMove>,
)
    requires
        x < vw,
        y < vh,
    ensures
        apply_moves(x, y, vw, vh, moves).0 < vw,
        apply_moves(x, y, vw, vh, moves).1 < vh,
    decreases moves.len(),
{
    if moves.len() > 0 {
        let stepped = move_cursor(x, y, vw, vh, moves[0]);
        lemma_cursor_moves_stay_in_bounds(stepped.0, stepped.1, vw, vh, moves.drop_first());
    }
}

/// An `Up` step with the cursor already on the top row is a no-op: the
/// cursor stays where it is, with no underflow and no error.
pub proof fn lemma_up_at_top_is_noop(x: nat, y: nat, vw: nat, vh: nat)
    requires
        y == 0,
    ensures
        move_cursor(x, y, vw, vh, CursorMove::Up) == (x, y),
{
}

/// A `Right` step with the cursor already on the last viewport column
/// leaves it pinned there: repeated moves past the edge never wrap.
pub proof fn lemma_right_saturates(x: nat, y: nat, vw: nat, vh: nat)
    requires
        vw > 0,
        x == vw - 1,
    ensures
        move_cursor(x, y, vw, vh, CursorMove::Right).0 == vw - 1,
{
}

/// The insertion-ordered key sequence and the name-keyed child map always
/// agree: the map's domain is exactly the set of child names, its size
/// equals the key sequence's length, and every key in the order is found
/// in the map.
pub proof fn lemma_key_order_matches_child_map(node: MenuNode)
    requires
        node.wf(),
    ensures
        node.child_map().dom() =~= node.child_names().to_set(),
        node.child_map().dom().len() == node.child_keys@.len(),
        forall|i: int|
            0 <= i < node.child_keys@.len() ==> node.child_map().dom().contains(
                (#[trigger] node.child_keys@[i])@,
            ),
{
    assert forall|n: Seq<char>|
        node.child_map().dom().contains(n) <==> node.child_names().to_set().contains(n) by {
        if node.has_child_name(n) {
            let i = choose|i: int|
                0 <= i < node.child_keys@.len() && (#[trigger] node.child_keys@[i])@ == n;
            assert(node.child_names()[i] == n);
            assert(node.child_names().contains(n));
        }
        if node.child_names().to_set().contains(n) {
            let i = choose|i: int| 0 <= i < node.child_names().len() && node.child_names()[i] == n;
            assert(node.child_keys@[i]@ == n);
            assert(node.has_child_name(n));
        }
    };
    assert(node.child_map().dom() =~= node.child_names().to_set());
    assert(node.child_names().no_duplicates()) by {
        assert forall|i: int, j: int|
            0 <= i < node.child_names().len() && 0 <= j < node.child_names().len() && i != j
            implies node.child_names()[i] != node.child_names()[j] by {
            if i < j {
                assert(node.child_keys@[i]@ != node.child_keys@[j]@);
            } else {
                assert(node.child_keys@[j]@ != node.child_keys@[i]@);
            }
        };
    };
    node.child_names().unique_seq_to_set();
    assert forall|i: int| 0 <= i < node.child_keys@.len() implies node.child_map().dom().contains(
        (#[trigger] node.child_keys@[i])@,
    ) by {
        assert(node.has_child_name(node.child_keys@[i]@));
    };
}

} // verus!
