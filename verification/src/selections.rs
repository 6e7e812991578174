//! What a session remembers outside the project: stored vertex selections, the
//! console log, and the count of compiles under way.
use crate::errors::EditorError;
use crate::list::{List, Same};
use crate::table::Table;
use vstd::prelude::*;

verus! {

/// Vertex selections stored under handles, so that a large one need not be
/// passed around.
pub struct VertexSelections {
    rows: Table<List<u32>>,
    next: u32,
}

/// Stored selections as a value.
#[verifier::ext_equal]
pub struct SelectionsView {
    pub rows: Map<u128, Seq<u32>>,
    pub next: u32,
}

impl View for VertexSelections {
    type V = SelectionsView;

    closed spec fn view(&self) -> SelectionsView {
        SelectionsView {
            rows: Map::new(
                |k: u128| self.rows@.contains_key(k),
                |k: u128| self.rows@[k]@,
            ),
            next: self.next,
        }
    }
}

/// The handle after another; zero is never one.
pub open spec fn handle_after(h: u32) -> u32 {
    if h == u32::MAX {
        1
    } else {
        (h + 1) as u32
    }
}

impl VertexSelections {
    /// No selections; the first handle is one.
    pub fn new() -> (s: VertexSelections)
        ensures
            s@.rows == Map::<u128, Seq<u32>>::empty(),
            s@.next == 1,
    {
        let s = VertexSelections { rows: Table::new(), next: 1 };
        assert(s@.rows =~= Map::<u128, Seq<u32>>::empty());
        s
    }

    /// The same selections under the same handles.
    pub fn copied(&self) -> (s: VertexSelections)
        ensures
            s@ == self@,
    {
        VertexSelections { rows: self.rows.copied(), next: self.next }
    }

    /// Stores a selection and returns its handle.
    pub fn store_vertex_selection(&mut self, indices: List<u32>) -> (id: u32)
        ensures
            id == old(self)@.next,
            final(self)@ == (SelectionsView {
                rows: old(self)@.rows.insert(id as u128, indices@),
                next: handle_after(id),
            }),
    {
        let id: u32 = self.next;
        let ghost before = self@;
        self.rows.insert(id as u128, indices);
        self.next = if id == u32::MAX {
            1
        } else {
            id + 1
        };
        assert(self@.rows =~= before.rows.insert(id as u128, indices@));
        id
    }

    /// The selection under a handle.
    pub fn lookup_vertex_selection(&self, id: u32) -> (r: Option<List<u32>>)
        ensures
            match r {
                Some(l) => self@.rows.contains_key(id as u128) && l@ == self@.rows[id as u128],
                None => !self@.rows.contains_key(id as u128),
            },
    {
        match self.rows.get(id as u128) {
            Some(l) => Some(l.clone()),
            None => None,
        }
    }

    /// The vertices that an edit is about: those under the handle where one is
    /// named, else the ones given. A handle that holds nothing is refused.
    pub fn resolve_vertex_selection_or(&self, selection: Option<u32>, indices: List<u32>) -> (r: Result<
        List<u32>,
        EditorError,
    >)
        ensures
            match resolved(self@, selection, indices@) {
                Ok(s) => r matches Ok(l) && l@ == s,
                Err(e) => r == Err::<List<u32>, EditorError>(e),
            },
    {
        match selection {
            Some(id) => match self.lookup_vertex_selection(id) {
                Some(l) => Ok(l),
                None => Err(EditorError::NoSelectionHandle(id)),
            },
            None => Ok(indices),
        }
    }
}

/// The vertices that an edit is about.
pub open spec fn resolved(s: SelectionsView, selection: Option<u32>, indices: Seq<u32>) -> Result<
    Seq<u32>,
    EditorError,
> {
    match selection {
        Some(id) => if s.rows.contains_key(id as u128) {
            Ok(s.rows[id as u128])
        } else {
            Err(EditorError::NoSelectionHandle(id))
        },
        None => Ok(indices),
    }
}

/// A stored selection is found under its handle, whatever indices stand beside
/// the handle, and the next handle is another one.
pub proof fn law_stored_selection_is_found(s: SelectionsView, indices: Seq<u32>, beside: Seq<u32>)
    requires
        s.next != 0,
    ensures
        ({
            let after = SelectionsView {
                rows: s.rows.insert(s.next as u128, indices),
                next: handle_after(s.next),
            };
            &&& resolved(after, Some(s.next), beside) == Ok::<Seq<u32>, EditorError>(indices)
            &&& after.next != 0
            &&& after.next != s.next
        }),
{
}

/// How many notices the console log keeps.
pub const CONSOLE_LOG_CAP: usize = 200;

/// A notice: its level and its text.
pub struct Notice {
    pub level: String,
    pub text: String,
}

impl Same for Notice {
    fn same(&self) -> (res: Self) {
        Notice { level: self.level.clone(), text: self.text.clone() }
    }
}

/// The last `limit` of a row.
pub open spec fn recent<T>(row: Seq<T>, limit: u32) -> Seq<T> {
    row.skip(
        if row.len() <= limit {
            0
        } else {
            row.len() - limit
        },
    )
}

/// The most recent notices, the oldest first.
pub struct ConsoleLog {
    pub notices: Vec<Notice>,
}

impl ConsoleLog {
    pub fn new() -> (l: ConsoleLog)
        ensures
            l.notices@.len() == 0,
    {
        ConsoleLog { notices: Vec::new() }
    }

    /// Adds a notice; where the log is full the oldest one goes.
    pub fn record_console_log(&mut self, level: &str, msg: &str)
        ensures
            ({
                let was = old(self).notices@;
                let now = final(self).notices@;
                let kept = if was.len() >= CONSOLE_LOG_CAP {
                    was.drop_first()
                } else {
                    was
                };
                &&& now.len() == kept.len() + 1
                &&& now.drop_last() == kept
                &&& now.last().level@ == level@
                &&& now.last().text@ == msg@
            }),
            old(self).notices@.len() <= CONSOLE_LOG_CAP ==> final(self).notices@.len()
                <= CONSOLE_LOG_CAP,
    {
        let ghost was = self.notices@;
        if self.notices.len() >= CONSOLE_LOG_CAP {
            self.notices.remove(0);
            assert(self.notices@ =~= was.drop_first());
        }
        let ghost kept = self.notices@;
        self.notices.push(Notice { level: level.to_owned(), text: msg.to_owned() });
        assert(self.notices@.drop_last() =~= kept);
    }

    /// The most recent notices, at most `limit` of them, the oldest first.
    pub fn console_logs(&self, limit: u32) -> (r: Vec<Notice>)
        ensures
            r@ == recent(self.notices@, limit),
    {
        let n: usize = self.notices.len();
        let start: usize = if n <= limit as usize {
            0
        } else {
            n - limit as usize
        };
        let mut out: Vec<Notice> = Vec::new();
        let mut i: usize = start;
        while i < n
            invariant
                start <= i <= n,
                n == self.notices@.len(),
                out@ == self.notices@.subrange(start as int, i as int),
            decreases n - i,
        {
            out.push(self.notices[i].same());
            i += 1;
            assert(out@ =~= self.notices@.subrange(start as int, i as int));
        }
        assert(out@ =~= recent(self.notices@, limit));
        out
    }
}

/// The count of material compiles under way or about to start. Nothing is
/// settled before it is back at zero.
pub struct CompileCount {
    pub pending: u32,
}

/// The count when one more compile begins.
pub open spec fn begun(n: u32) -> u32 {
    if n == u32::MAX {
        u32::MAX
    } else {
        (n + 1) as u32
    }
}

/// The count when a compile ends.
pub open spec fn ended(n: u32) -> u32 {
    if n == 0 {
        0
    } else {
        (n - 1) as u32
    }
}

/// A compile that begins and ends leaves the count as it was, unless it was as
/// high as it can be.
pub proof fn law_compile_pair_cancels(n: u32)
    requires
        n < u32::MAX,
    ensures
        ended(begun(n)) == n,
        begun(n) != 0,
{
}

impl CompileCount {
    pub fn new() -> (g: CompileCount)
        ensures
            g.pending == 0,
    {
        CompileCount { pending: 0 }
    }

    /// A compile begins.
    pub fn compile_begin(&mut self)
        ensures
            final(self).pending == begun(old(self).pending),
    {
        if self.pending < u32::MAX {
            self.pending += 1;
        }
    }

    /// A compile ends.
    pub fn compile_end(&mut self)
        ensures
            final(self).pending == ended(old(self).pending),
    {
        if self.pending > 0 {
            self.pending -= 1;
        }
    }
}

} // verus!
