use vstd::prelude::*;
use crate::error::MenuError;
use crate::menu::{CursorMove, MenuTree, SelectOutcome, move_cursor, MenuNode};

verus! {

/// One logical input event, routed to the menu on top of the stack.
#[derive(Debug, Clone, Copy, PartialEq, Eq, Structural)]
pub enum MenuEvent {
    Up,
    Down,
    Left,
    Right,
    Select,
    Cancel,
}

/// What one dispatched event did.
#[derive(Debug, Clone, Copy, PartialEq, Eq, Structural)]
pub enum DispatchResult {
    /// A direction event moved the top menu's cursor.
    Moved,
    /// `Select` on a submenu entry opened that child: its handle is now on
    /// top of the stack.
    Opened(usize),
    /// `Select` on a leaf entry: the handle names the activated leaf.
    Activated(usize),
    /// `Cancel` closed the top menu: the handle names the menu that left.
    Closed(usize),
}

/// The ordered stack of currently open menus, bottom to top. Only the top
/// entry receives input. The stack never owns a node: entries are handles
/// into a [`MenuTree`] that outlives it.
pub struct MenuStack {
    pub stack: Vec<usize>,
    pub font_scale: u32,
}

impl MenuStack {
    /// Every open entry names a node of `t`, and no menu is open twice.
    pub open spec fn wf(self, t: MenuTree) -> bool {
        &&& forall|i: int|
            0 <= i < self.stack@.len() ==> (#[trigger] self.stack@[i]) < t.nodes@.len()
        &&& forall|i: int, j: int|
            0 <= i < j < self.stack@.len() ==> self.stack@[i] != self.stack@[j]
    }

    /// An empty stack with the given render scale.
    pub fn new(scale: u32) -> (s: MenuStack)
        ensures
            s.stack@.len() == 0,
            s.font_scale == scale,
    {
        MenuStack { stack: Vec::new(), font_scale: scale }
    }

    /// Opens the menu `h`: pushes it on top, making it the input target.
    /// An unknown handle reports `NotFound`; a menu that is already open
    /// somewhere in the stack is rejected with `NameCollision`, since no
    /// node may appear twice.
    pub fn open(&mut self, t: &MenuTree, h: usize) -> (r: Result<(), MenuError>)
        requires
            old(self).wf(*t),
        ensures
            final(self).wf(*t),
            final(self).font_scale == old(self).font_scale,
            h as int >= t.nodes@.len() ==> r == Err::<(), MenuError>(MenuError::NotFound)
                && *final(self) == *old(self),
            (h as int) < t.nodes@.len() && old(self).stack@.contains(h) ==> r == Err::<
                (),
                MenuError,
            >(MenuError::NameCollision) && *final(self) == *old(self),
            (h as int) < t.nodes@.len() && !old(self).stack@.contains(h) ==> r is Ok
                && final(self).stack@ == old(self).stack@.push(h),
    {
        if h >= t.nodes.len() {
            return Err(MenuError::NotFound);
        }
        let n = self.stack.len();
        let mut i: usize = 0;
        while i < n
            invariant
                *self == *old(self),
                old(self).wf(*t),
                (h as int) < t.nodes@.len(),
                n == self.stack@.len(),
                i <= n,
                forall|k: int| 0 <= k < i ==> (#[trigger] self.stack@[k]) != h,
            decreases n - i,
        {
            if self.stack[i] == h {
                return Err(MenuError::NameCollision);
            }
            i += 1;
        }
        self.stack.push(h);
        Ok(())
    }

    /// The handle of the menu on top of the stack: the one input target.
    pub fn get_top_menu(&self) -> (r: Result<usize, MenuError>)
        ensures
            self.stack@.len() == 0 ==> r == Err::<usize, MenuError>(MenuError::EmptyStack),
            self.stack@.len() > 0 ==> r == Ok::<usize, MenuError>(self.stack@.last()),
    {
        let n = self.stack.len();
        if n == 0 {
            return Err(MenuError::EmptyStack);
        }
        Ok(self.stack[n - 1])
    }

    /// Closes the top menu and reports its handle. The bottom entry (the
    /// root) is not poppable: on a stack of one — or none — nothing
    /// changes and `EmptyStack` comes back.
    pub fn close(&mut self) -> (r: Result<usize, MenuError>)
        ensures
            final(self).font_scale == old(self).font_scale,
            old(self).stack@.len() <= 1 ==> r == Err::<usize, MenuError>(MenuError::EmptyStack)
                && *final(self) == *old(self),
            old(self).stack@.len() > 1 ==> r == Ok::<usize, MenuError>(old(self).stack@.last())
                && final(self).stack@ == old(self).stack@.drop_last(),
    {
        if self.stack.len() <= 1 {
            return Err(MenuError::EmptyStack);
        }
        match self.stack.pop() {
            Some(h) => Ok(h),
            None => Err(MenuError::EmptyStack),
        }
    }

    /// Routes one event to the top menu. Direction events move that menu's
    /// cursor; `Select` reports the chosen child and opens it when it is a
    /// submenu; `Cancel` closes the top menu, except the root, which stays.
    /// An empty stack rejects every event with `EmptyStack`.
    pub fn dispatch(&mut self, t: &mut MenuTree, ev: MenuEvent) -> (r: Result<
        DispatchResult,
        MenuError,
    >)
        requires
            old(self).wf(*old(t)),
            old(t).wf(),
        ensures
            final(t).wf(),
            final(self).wf(*final(t)),
            final(self).font_scale == old(self).font_scale,
            old(self).stack@.len() == 0 ==> r == Err::<DispatchResult, MenuError>(
                MenuError::EmptyStack,
            ) && *final(self) == *old(self) && *final(t) == *old(t),
            old(self).stack@.len() > 0 ==> ({
                let top = old(self).stack@.last();
                let node = old(t).nodes@[top as int];
                match ev {
                    MenuEvent::Up => {
                        &&& r == Ok::<DispatchResult, MenuError>(DispatchResult::Moved)
                        &&& *final(self) == *old(self)
                        &&& final(t).nodes@ == old(t).nodes@.update(
                            top as int,
                            moved_node(node, CursorMove::Up),
                        )
                    },
                    MenuEvent::Down => {
                        &&& r == Ok::<DispatchResult, MenuError>(DispatchResult::Moved)
                        &&& *final(self) == *old(self)
                        &&& final(t).nodes@ == old(t).nodes@.update(
                            top as int,
                            moved_node(node, CursorMove::Down),
                        )
                    },
                    MenuEvent::Left => {
                        &&& r == Ok::<DispatchResult, MenuError>(DispatchResult::Moved)
                        &&& *final(self) == *old(self)
                        &&& final(t).nodes@ == old(t).nodes@.update(
                            top as int,
                            moved_node(node, CursorMove::Left),
                        )
                    },
                    MenuEvent::Right => {
                        &&& r == Ok::<DispatchResult, MenuError>(DispatchResult::Moved)
                        &&& *final(self) == *old(self)
                        &&& final(t).nodes@ == old(t).nodes@.update(
                            top as int,
                            moved_node(node, CursorMove::Right),
                        )
                    },
                    MenuEvent::Select => {
                        &&& *final(t) == *old(t)
                        &&& node.cursor_y as int >= node.child_handles@.len() ==> r == Err::<
                            DispatchResult,
                            MenuError,
                        >(MenuError::NotFound) && *final(self) == *old(self)
                        &&& (node.cursor_y as int) < node.child_handles@.len() ==> ({
                            let c = node.child_handles@[node.cursor_y as int];
                            &&& old(t).nodes@[c as int].is_leaf ==> r == Ok::<
                                DispatchResult,
                                MenuError,
                            >(DispatchResult::Activated(c)) && *final(self) == *old(self)
                            &&& !old(t).nodes@[c as int].is_leaf && old(self).stack@.contains(c)
                                ==> r == Err::<DispatchResult, MenuError>(MenuError::NameCollision)
                                && *final(self) == *old(self)
                            &&& !old(t).nodes@[c as int].is_leaf && !old(self).stack@.contains(c)
                                ==> r == Ok::<DispatchResult, MenuError>(DispatchResult::Opened(c))
                                && final(self).stack@ == old(self).stack@.push(c)
                        })
                    },
                    MenuEvent::Cancel => {
                        &&& *final(t) == *old(t)
                        &&& old(self).stack@.len() == 1 ==> r == Err::<DispatchResult, MenuError>(
                            MenuError::EmptyStack,
                        ) && *final(self) == *old(self)
                        &&& old(self).stack@.len() > 1 ==> r == Ok::<DispatchResult, MenuError>(
                            DispatchResult::Closed(old(self).stack@.last()),
                        ) && final(self).stack@ == old(self).stack@.drop_last()
                    },
                }
            }),
    {
        let top = match self.get_top_menu() {
            Ok(h) => h,
            Err(e) => {
                return Err(e);
            },
        };
        match ev {
            MenuEvent::Up => {
                match t.on_up(top) {
                    Ok(_) => Ok(DispatchResult::Moved),
                    Err(e) => Err(e),
                }
            },
            MenuEvent::Down => {
                match t.on_down(top) {
                    Ok(_) => Ok(DispatchResult::Moved),
                    Err(e) => Err(e),
                }
            },
            MenuEvent::Left => {
                match t.on_left(top) {
                    Ok(_) => Ok(DispatchResult::Moved),
                    Err(e) => Err(e),
                }
            },
            MenuEvent::Right => {
                match t.on_right(top) {
                    Ok(_) => Ok(DispatchResult::Moved),
                    Err(e) => Err(e),
                }
            },
            MenuEvent::Select => {
                match t.on_select(top) {
                    Ok(SelectOutcome::ActivatedLeaf(c)) => Ok(DispatchResult::Activated(c)),
                    Ok(SelectOutcome::EnteredSubmenu(c)) => {
                        match self.open(t, c) {
                            Ok(_) => Ok(DispatchResult::Opened(c)),
                            Err(e) => Err(e),
                        }
                    },
                    Err(e) => Err(e),
                }
            },
            MenuEvent::Cancel => {
                match self.close() {
                    Ok(h) => Ok(DispatchResult::Closed(h)),
                    Err(e) => Err(e),
                }
            },
        }
    }
}

/// The node as it stands after one cursor move inside its viewport.
pub open spec fn moved_node(node: MenuNode, m: CursorMove) -> MenuNode {
    let c = move_cursor(
        node.cursor_x as nat,
        node.cursor_y as nat,
        node.viz_width as nat,
        node.viz_height as nat,
        m,
    );
    MenuNode { cursor_x: c.0 as usize, cursor_y: c.1 as usize, ..node }
}

} // verus!
