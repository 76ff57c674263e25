//! The interactive workspace: the fixed document set with baselines, the
//! modified-set kept byte-exactly in step with them, the modal edit session
//! with chord memory and bounded undo history, the operation log, and the
//! coordinator that batches the modified set for the external apply tool.
//!
//! The well-formedness predicate carries the central invariant: a document
//! name stands in the modified set exactly when its persisted content
//! differs from its baseline.
use vstd::prelude::*;

use crate::buffer::TextBuffer;
use crate::logbook::OperationLog;
use crate::nav::StatefulList;
use crate::stamp::{log_line_spec, Stamp};
use crate::text::{
    clone_chars, clone_lines, contains_name, contains_name_exec, insert_name_sorted, lex_lt,
    lines_eq, remove_name_sorted, names_sorted, str_to_chars, view_lines,
};

verus! {

/// Capacity of the undo history.
pub const MAX_HISTORY_SIZE: usize = 100;

/// The neutral chord-memory value.
pub const NO_CHORD: char = ' ';

/// One editable document: an immutable baseline and the persisted current
/// content.
pub struct DocumentEntry {
    pub name: Vec<char>,
    pub baseline: Vec<Vec<char>>,
    pub content: Vec<Vec<char>>,
}

/// A document diverges from its baseline, byte-exactly.
pub open spec fn doc_dirty(d: DocumentEntry) -> bool {
    view_lines(d.content@) != view_lines(d.baseline@)
}

/// The documents are strictly sorted by name.
pub open spec fn docs_sorted(s: Seq<DocumentEntry>) -> bool {
    forall|i: int, j: int| 0 <= i < j < s.len() ==> lex_lt(s[i].name@, s[j].name@)
}

/// `nm` is the name of one of the documents.
pub open spec fn contains_doc_name(s: Seq<DocumentEntry>, nm: Seq<char>) -> bool {
    exists|i: int| 0 <= i < s.len() && s[i].name@ == nm
}

/// The editing mode; exactly one is active.
pub enum Mode {
    Normal,
    Insert,
    Search,
}

pub struct AcpiEditor {
    /// The fixed document set, name-sorted, with its selection.
    pub files: StatefulList<DocumentEntry>,
    /// Names of the diverged documents, sorted, with its own selection.
    pub modified: StatefulList<Vec<char>>,
    /// The active text buffer.
    pub content: TextBuffer,
    /// Undo snapshots of the active buffer, oldest first.
    pub history: Vec<TextBuffer>,
    /// Chord memory: the pending first keystroke, or `NO_CHORD`.
    pub last_char: char,
    pub mode: Mode,
    /// The pattern buffer edited in search mode, with its leading marker.
    pub search_pattern: Vec<char>,
    /// The last compiled search pattern.
    pub active_pattern: Vec<char>,
    pub log: OperationLog,
}

/// The index of the active document: the selected one, or the first.
pub open spec fn sel_index(e: AcpiEditor) -> int {
    match e.files.selected {
        Some(i) => i as int,
        None => 0,
    }
}

impl AcpiEditor {
    /// Every structural invariant of the workspace, among them the dirty
    /// invariant: a name is in the modified set if and only if that
    /// document's content differs from its baseline.
    pub open spec fn wf(self) -> bool {
        &&& self.files.wf()
        &&& self.modified.wf()
        &&& docs_sorted(self.files.items@)
        &&& names_sorted(self.modified.items@)
        &&& forall|i: int|
            0 <= i < self.files.items@.len() ==> (contains_name(
                self.modified.items@,
                #[trigger] self.files.items@[i].name@,
            ) <==> doc_dirty(self.files.items@[i]))
        &&& forall|j: int|
            0 <= j < self.modified.items@.len() ==> contains_doc_name(
                self.files.items@,
                #[trigger] self.modified.items@[j]@,
            )
        &&& self.content.wf()
        &&& forall|k: int| 0 <= k < self.history@.len() ==> (#[trigger] self.history@[k]).wf()
        &&& self.history@.len() <= MAX_HISTORY_SIZE
        &&& self.log.wf()
    }

    /// An empty workspace: no documents, nothing modified, an empty buffer,
    /// normal mode, neutral chord memory, an empty log.
    pub fn new() -> (r: AcpiEditor)
        ensures
            r.wf(),
            r.files.items@.len() == 0,
            r.files.selected is None,
            r.modified.items@.len() == 0,
            r.content.text() =~= seq![Seq::<char>::empty()],
            r.history@.len() == 0,
            r.last_char == NO_CHORD,
            r.mode is Normal,
            r.search_pattern@.len() == 0,
            r.active_pattern@.len() == 0,
            r.log.wf(),
            r.log.history@.len() == 0,
    {
        AcpiEditor {
            files: StatefulList::with_items(Vec::new()),
            modified: StatefulList::with_items(Vec::new()),
            content: TextBuffer::new(),
            history: Vec::new(),
            last_char: NO_CHORD,
            mode: Mode::Normal,
            search_pattern: Vec::new(),
            active_pattern: Vec::new(),
            log: OperationLog::new(),
        }
    }

    /// Adds one document at workspace construction, keeping the set
    /// name-sorted and the modified set exact: the name joins it just when
    /// the given content already diverges from the baseline.
    pub fn add_document(&mut self, name: Vec<char>, baseline: Vec<Vec<char>>, content: Vec<Vec<char>>)
        requires
            old(self).wf(),
            !contains_doc_name(old(self).files.items@, name@),
            old(self).files.selected is None,
            old(self).modified.selected is None,
        ensures
            final(self).wf(),
            final(self).files.selected is None,
            final(self).modified.selected is None,
            final(self).files.items@.len() == old(self).files.items@.len() + 1,
            forall|nm: Seq<char>|
                #[trigger] contains_doc_name(final(self).files.items@, nm) <==> (contains_doc_name(
                    old(self).files.items@,
                    nm,
                ) || nm == name@),
            exists|i: int|
                0 <= i < final(self).files.items@.len() && final(self).files.items@[i].name@
                    == name@ && view_lines(#[trigger] final(self).files.items@[i].baseline@)
                    == view_lines(baseline@) && view_lines(final(self).files.items@[i].content@)
                    == view_lines(content@),
            forall|nm: Seq<char>|
                #[trigger] contains_name(final(self).modified.items@, nm) <==> (contains_name(
                    old(self).modified.items@,
                    nm,
                ) || (nm == name@ && view_lines(content@) != view_lines(baseline@))),
            final(self).content == old(self).content,
            final(self).history == old(self).history,
            final(self).last_char == old(self).last_char,
            final(self).mode == old(self).mode,
            final(self).log == old(self).log,
    {
        let dirty = !lines_eq(&content, &baseline);
        let name_copy = clone_chars(&name);
        let entry = DocumentEntry { name, baseline, content };
        let mut j: usize = 0;
        while j < self.files.items.len() && chars_lt_entry(&self.files.items[j], &entry)
            invariant
                j <= self.files.items@.len(),
                forall|k: int| 0 <= k < j ==> lex_lt(self.files.items@[k].name@, entry.name@),
                self == old(self),
                entry.name@ == name_copy@,
            decreases self.files.items@.len() - j,
        {
            j += 1;
        }
        proof {
            if (j as int) < self.files.items@.len() {
                crate::text::lemma_lex_trichotomy(
                    self.files.items@[j as int].name@,
                    entry.name@,
                );
            }
        }
        let ghost pre = *self;
        let ghost jj = j as int;
        self.files.items.insert(j, entry);
        proof {
            let post = self.files.items@;
            let prei = pre.files.items@;
            assert forall|x: int, y: int|
                0 <= x < y < post.len() implies lex_lt(post[x].name@, post[y].name@) by {
                if x < jj && y == jj {
                } else if x == jj && y > jj {
                    if jj < prei.len() {
                        crate::text::lemma_lex_trichotomy(prei[jj].name@, name_copy@);
                        if jj < y - 1 {
                            crate::text::lemma_lex_transitive(
                                name_copy@,
                                prei[jj].name@,
                                prei[y - 1].name@,
                            );
                        }
                    }
                } else if x < jj && y > jj {
                    assert(lex_lt(prei[x].name@, prei[y - 1].name@));
                } else if x > jj && y > jj {
                    assert(lex_lt(prei[x - 1].name@, prei[y - 1].name@));
                }
            }
            assert forall|nm: Seq<char>|
                #[trigger] contains_doc_name(post, nm) <==> (contains_doc_name(prei, nm) || nm
                    == name_copy@) by {
                if contains_doc_name(post, nm) {
                    let w = choose|w: int| 0 <= w < post.len() && post[w].name@ == nm;
                    if w < jj {
                        assert(prei[w].name@ == nm);
                    } else if w > jj {
                        assert(prei[w - 1].name@ == nm);
                    }
                }
                if contains_doc_name(prei, nm) {
                    let w = choose|w: int| 0 <= w < prei.len() && prei[w].name@ == nm;
                    if w < jj {
                        assert(post[w].name@ == nm);
                    } else {
                        assert(post[w + 1].name@ == nm);
                    }
                }
                if nm == name_copy@ {
                    assert(post[jj].name@ == nm);
                }
            }
        }
        if dirty {
            insert_name_sorted(&mut self.modified.items, name_copy);
        }
        proof {
            lemma_docs_distinct(self.files.items@);
            assert(self.files.items@[jj].name@ == name@ && view_lines(
                self.files.items@[jj].baseline@,
            ) == view_lines(baseline@) && view_lines(self.files.items@[jj].content@) == view_lines(
                content@,
            ));
            if !dirty && contains_name(pre.modified.items@, name@) {
                let w = choose|w: int|
                    0 <= w < pre.modified.items@.len() && pre.modified.items@[w]@ == name@;
                assert(contains_doc_name(pre.files.items@, pre.modified.items@[w]@));
            }
            assert forall|i: int|
                0 <= i < self.files.items@.len() implies (contains_name(
                self.modified.items@,
                #[trigger] self.files.items@[i].name@,
            ) <==> doc_dirty(self.files.items@[i])) by {
                if i < jj {
                    assert(self.files.items@[i] == pre.files.items@[i]);
                    assert(contains_doc_name(pre.files.items@, pre.files.items@[i].name@));
                } else if i > jj {
                    assert(self.files.items@[i] == pre.files.items@[i - 1]);
                    assert(contains_doc_name(pre.files.items@, pre.files.items@[i - 1].name@));
                }
            }
            assert forall|j2: int|
                0 <= j2 < self.modified.items@.len() implies contains_doc_name(
                self.files.items@,
                #[trigger] self.modified.items@[j2]@,
            ) by {
                let nm = self.modified.items@[j2]@;
                assert(contains_name(self.modified.items@, nm));
                if contains_name(pre.modified.items@, nm) {
                    let w = choose|w: int|
                        0 <= w < pre.modified.items@.len() && pre.modified.items@[w]@ == nm;
                    assert(contains_doc_name(pre.files.items@, nm));
                    let d = choose|d: int|
                        0 <= d < pre.files.items@.len() && pre.files.items@[d].name@ == nm;
                    if d < jj {
                        assert(self.files.items@[d].name@ == nm);
                    } else {
                        assert(self.files.items@[d + 1].name@ == nm);
                    }
                } else {
                    assert(nm == name@);
                    assert(self.files.items@[jj].name@ == nm);
                }
            }
        }
    }

    /// Formats `message` with its timestamp, appends it to the log ring,
    /// and returns the line the caller owes to the durable sink.
    pub fn update_log(&mut self, message: &Vec<char>, at: &Stamp) -> (line: String)
        requires
            old(self).wf(),
        ensures
            final(self).wf(),
            line@ == log_line_spec(*at, message@),
            final(self).log.history@ == old(self).log.history@.push(line@),
            final(self).files == old(self).files,
            final(self).modified == old(self).modified,
            final(self).content == old(self).content,
            final(self).history == old(self).history,
            final(self).last_char == old(self).last_char,
            final(self).mode == old(self).mode,
            final(self).search_pattern == old(self).search_pattern,
            final(self).active_pattern == old(self).active_pattern,
    {
        self.log.append(at, message)
    }

    /// Switches the editing mode; entering search mode resets the pattern
    /// buffer to the bare marker.
    pub fn switch_mode(&mut self, mode: Mode)
        requires
            old(self).wf(),
        ensures
            final(self).wf(),
            final(self).mode == mode,
            (match mode {
                Mode::Search => final(self).search_pattern@ =~= seq!['/'],
                _ => final(self).search_pattern == old(self).search_pattern,
            }),
            final(self).files == old(self).files,
            final(self).modified == old(self).modified,
            final(self).content == old(self).content,
            final(self).history == old(self).history,
            final(self).last_char == old(self).last_char,
            final(self).active_pattern == old(self).active_pattern,
            final(self).log == old(self).log,
    {
        match mode {
            Mode::Normal => {
                self.mode = Mode::Normal;
            },
            Mode::Insert => {
                self.mode = Mode::Insert;
            },
            Mode::Search => {
                self.mode = Mode::Search;
                let mut p: Vec<char> = Vec::new();
                p.push('/');
                self.search_pattern = p;
            },
        }
    }

    /// Persists the active buffer into the active document and recomputes
    /// its membership in the modified set; on an empty workspace nothing
    /// happens.
    pub fn write(&mut self)
        requires
            old(self).wf(),
        ensures
            final(self).wf(),
            write_rel(*old(self), *final(self)),
    {
        if self.files.items.len() == 0 {
            return ;
        }
        let i = match self.files.selected {
            Some(i) => i,
            None => 0,
        };
        let ghost pre = *self;
        let mut entry = self.files.items.remove(i);
        let dirty = !lines_eq(&self.content.lines, &entry.baseline);
        let name_copy = clone_chars(&entry.name);
        entry.content = clone_lines(&self.content.lines);
        self.files.items.insert(i, entry);
        proof {
            pre.files.items@.remove_ensures(i as int);
            assert(self.files.items@ =~= pre.files.items@.update(
                i as int,
                self.files.items@[i as int],
            ));
            assert(forall|k: int|
                0 <= k < self.files.items@.len() && k != i ==> self.files.items@[k]
                    == pre.files.items@[k]);
            assert(self.files.items@[i as int].name@ == pre.files.items@[i as int].name@);
        }
        let present = contains_name_exec(&self.modified.items, &name_copy);
        if dirty && !present {
            insert_name_sorted(&mut self.modified.items, name_copy);
        } else if !dirty && present {
            remove_name_sorted(&mut self.modified.items, &name_copy);
        }
        match self.modified.selected {
            Some(k) => {
                if k >= self.modified.items.len() {
                    self.modified.selected = None;
                }
            },
            None => {},
        }
        proof {
            assert(forall|k: int|
                0 <= k < self.files.items@.len() ==> (#[trigger] self.files.items@[k].name@)
                    == pre.files.items@[k].name@);
            assert(docs_sorted(self.files.items@));
            lemma_docs_distinct(self.files.items@);
            assert forall|ii: int|
                0 <= ii < self.files.items@.len() implies (contains_name(
                self.modified.items@,
                #[trigger] self.files.items@[ii].name@,
            ) <==> doc_dirty(self.files.items@[ii])) by {
                if ii != i {
                    assert(self.files.items@[ii] == pre.files.items@[ii]);
                    assert(self.files.items@[ii].name@ != self.files.items@[i as int].name@);
                }
            }
            assert forall|j2: int|
                0 <= j2 < self.modified.items@.len() implies contains_doc_name(
                self.files.items@,
                #[trigger] self.modified.items@[j2]@,
            ) by {
                let nm = self.modified.items@[j2]@;
                assert(contains_name(self.modified.items@, nm));
                if nm == name_copy@ {
                    assert(self.files.items@[i as int].name@ == nm);
                } else {
                    assert(contains_name(pre.modified.items@, nm));
                    let w = choose|w: int|
                        0 <= w < pre.modified.items@.len() && pre.modified.items@[w]@ == nm;
                    assert(contains_doc_name(pre.files.items@, nm));
                    let d = choose|d: int|
                        0 <= d < pre.files.items@.len() && pre.files.items@[d].name@ == nm;
                    assert(self.files.items@[d].name@ == nm);
                }
            }
        }
    }
}

/// The document set and modified set after persisting `text` into the
/// active document: that document takes `text`, and its divergence from its
/// baseline decides its name's membership in the modified set; everything
/// else among the documents is untouched. On an empty workspace nothing
/// changes. Reads only `pre`'s document list, modified set and selections.
pub open spec fn persist_to(pre: AcpiEditor, post: AcpiEditor, text: Seq<Seq<char>>) -> bool {
    &&& post.files.selected == pre.files.selected
    &&& (match pre.modified.selected {
        Some(k) => post.modified.selected == (if k < post.modified.items@.len() {
            Some(k)
        } else {
            None
        }),
        None => post.modified.selected is None,
    })
    &&& if pre.files.items@.len() == 0 {
        post.files == pre.files && post.modified == pre.modified
    } else {
        let i = sel_index(pre);
        let name = pre.files.items@[i].name@;
        let dirty = text != view_lines(pre.files.items@[i].baseline@);
        &&& post.files.items@.len() == pre.files.items@.len()
        &&& forall|k: int|
            0 <= k < post.files.items@.len() && k != i ==> post.files.items@[k]
                == pre.files.items@[k]
        &&& post.files.items@[i].name@ == name
        &&& post.files.items@[i].baseline == pre.files.items@[i].baseline
        &&& view_lines(post.files.items@[i].content@) == text
        &&& forall|nm: Seq<char>|
            #[trigger] contains_name(post.modified.items@, nm) <==> (if nm == name {
                dirty
            } else {
                contains_name(pre.modified.items@, nm)
            })
    }
}

/// What `write` leaves behind: only the active document's content and the
/// modified set change; the document takes the buffer's text, and the
/// buffer's divergence from the baseline decides the name's membership.
pub open spec fn write_rel(pre: AcpiEditor, post: AcpiEditor) -> bool {
    &&& post.content == pre.content
    &&& post.history == pre.history
    &&& post.last_char == pre.last_char
    &&& post.mode == pre.mode
    &&& post.search_pattern == pre.search_pattern
    &&& post.active_pattern == pre.active_pattern
    &&& post.log == pre.log
    &&& persist_to(pre, post, pre.content.text())
}

/// `persist_to` reads only the document list, the modified set and the
/// selections of its first argument.
pub proof fn lemma_persist_frame(a: AcpiEditor, b: AcpiEditor, post: AcpiEditor, text: Seq<Seq<char>>)
    requires
        a.files == b.files,
        a.modified == b.modified,
        persist_to(a, post, text),
    ensures
        persist_to(b, post, text),
{
}

/// Compares two documents by name.
fn chars_lt_entry(a: &DocumentEntry, b: &DocumentEntry) -> (r: bool)
    ensures
        r == lex_lt(a.name@, b.name@),
{
    crate::text::chars_lt(&a.name, &b.name)
}

/// Strictly sorted documents have pairwise distinct names.
pub proof fn lemma_docs_distinct(s: Seq<DocumentEntry>)
    requires
        docs_sorted(s),
    ensures
        forall|i: int, j: int|
            0 <= i < s.len() && 0 <= j < s.len() && i != j ==> s[i].name@ != s[j].name@,
{
    assert forall|i: int, j: int|
        0 <= i < s.len() && 0 <= j < s.len() && i != j implies s[i].name@ != s[j].name@ by {
        if i < j {
            crate::text::lemma_lex_trichotomy(s[i].name@, s[j].name@);
        } else {
            crate::text::lemma_lex_trichotomy(s[j].name@, s[i].name@);
        }
    }
}

/// Buffers agree on text and cursor.
pub open spec fn buf_eq(a: TextBuffer, b: TextBuffer) -> bool {
    a.text() == b.text() && a.row == b.row && a.col == b.col
}

/// A snapshot of `b` joins the history, the oldest entry leaving first when
/// the history is full.
pub open spec fn hist_push_rel(preh: Seq<TextBuffer>, posth: Seq<TextBuffer>, b: TextBuffer) -> bool {
    let shift: int = if preh.len() >= MAX_HISTORY_SIZE {
        1
    } else {
        0
    };
    &&& posth.len() == preh.len() + 1 - shift
    &&& forall|k: int| 0 <= k < posth.len() - 1 ==> posth[k] == preh[k + shift]
    &&& buf_eq(posth[posth.len() - 1], b)
}

/// Nothing changes but the cursor of the active buffer.
pub open spec fn motion_rel(pre: AcpiEditor, post: AcpiEditor) -> bool {
    &&& post.files == pre.files
    &&& post.modified == pre.modified
    &&& post.history == pre.history
    &&& post.last_char == pre.last_char
    &&& post.mode == pre.mode
    &&& post.search_pattern == pre.search_pattern
    &&& post.active_pattern == pre.active_pattern
    &&& post.log == pre.log
    &&& post.content.lines == pre.content.lines
}

/// A first chord keystroke: only the chord memory changes, to `c`.
pub open spec fn pending_rel(pre: AcpiEditor, post: AcpiEditor, c: char) -> bool {
    &&& post.files == pre.files
    &&& post.modified == pre.modified
    &&& post.content == pre.content
    &&& post.history == pre.history
    &&& post.mode == pre.mode
    &&& post.search_pattern == pre.search_pattern
    &&& post.active_pattern == pre.active_pattern
    &&& post.log == pre.log
    &&& post.last_char == c
}

/// The session fields a buffer mutation leaves alone.
pub open spec fn mutation_env_rel(pre: AcpiEditor, post: AcpiEditor) -> bool {
    &&& post.mode == pre.mode
    &&& post.search_pattern == pre.search_pattern
    &&& post.active_pattern == pre.active_pattern
    &&& post.log == pre.log
}

/// A completed `d d` chord: the current line's text is cleared, a snapshot
/// joins the history, the result is persisted, and the chord memory clears.
pub open spec fn dd_rel(pre: AcpiEditor, post: AcpiEditor) -> bool {
    &&& mutation_env_rel(pre, post)
    &&& post.last_char == NO_CHORD
    &&& post.content.text() == pre.content.text().update(
        pre.content.row as int,
        Seq::<char>::empty(),
    )
    &&& post.content.row == pre.content.row
    &&& post.content.col == 0
    &&& hist_push_rel(pre.history@, post.history@, pre.content)
    &&& persist_to(pre, post, post.content.text())
}

/// A completed `d w` chord: the text from the cursor to the next word
/// boundary leaves the line, a snapshot joins the history, the result is
/// persisted, and the chord memory holds `w`.
pub open spec fn dw_rel(pre: AcpiEditor, post: AcpiEditor) -> bool {
    &&& mutation_env_rel(pre, post)
    &&& post.last_char == 'w'
    &&& post.content.text() == pre.content.text().update(
        pre.content.row as int,
        pre.content.cur_line().subrange(0, pre.content.col as int) + pre.content.cur_line().skip(
            crate::buffer::word_boundary(pre.content.cur_line(), pre.content.col as nat) as int,
        ),
    )
    &&& post.content.row == pre.content.row
    &&& post.content.col == pre.content.col
    &&& hist_push_rel(pre.history@, post.history@, pre.content)
    &&& persist_to(pre, post, post.content.text())
}

/// A plain `w` with no pending `d`: a word-forward cursor move; the chord
/// memory holds `w`.
pub open spec fn word_fallback_rel(pre: AcpiEditor, post: AcpiEditor) -> bool {
    &&& motion_rel(pre, AcpiEditor { last_char: pre.last_char, ..post })
    &&& post.last_char == 'w'
    &&& post.content.row == pre.content.row
    &&& post.content.col == crate::buffer::word_boundary(
        pre.content.cur_line(),
        pre.content.col as nat,
    )
}

/// Deletion of the character under the cursor, persisted, with a snapshot.
pub open spec fn delete_char_rel(pre: AcpiEditor, post: AcpiEditor) -> bool {
    &&& mutation_env_rel(pre, post)
    &&& post.last_char == pre.last_char
    &&& (if pre.content.col < pre.content.cur_line().len() {
        post.content.text() == pre.content.text().update(
            pre.content.row as int,
            pre.content.cur_line().remove(pre.content.col as int),
        )
    } else {
        post.content.text() == pre.content.text()
    })
    &&& post.content.row == pre.content.row
    &&& post.content.col == pre.content.col
    &&& hist_push_rel(pre.history@, post.history@, pre.content)
    &&& persist_to(pre, post, post.content.text())
}

/// An empty line opens below (or above) the cursor's line, persisted, with
/// a snapshot; the session enters insert mode.
pub open spec fn open_line_rel(pre: AcpiEditor, post: AcpiEditor, below: bool) -> bool {
    &&& post.search_pattern == pre.search_pattern
    &&& post.active_pattern == pre.active_pattern
    &&& post.log == pre.log
    &&& post.mode is Insert
    &&& post.last_char == pre.last_char
    &&& post.content.text() == pre.content.text().insert(
        if below {
            pre.content.row + 1
        } else {
            pre.content.row as int
        },
        Seq::<char>::empty(),
    )
    &&& post.content.row == (if below {
        pre.content.row + 1
    } else {
        pre.content.row as int
    })
    &&& post.content.col == 0
    &&& hist_push_rel(pre.history@, post.history@, pre.content)
    &&& persist_to(pre, post, post.content.text())
}

/// Undo: the most recent snapshot, if any, becomes the buffer again and is
/// persisted; with an empty history only the persist happens.
pub open spec fn undo_rel(pre: AcpiEditor, post: AcpiEditor) -> bool {
    &&& mutation_env_rel(pre, post)
    &&& post.last_char == pre.last_char
    &&& (if pre.history@.len() > 0 {
        post.content == pre.history@[pre.history@.len() - 1] && post.history@
            == pre.history@.drop_last()
    } else {
        post.content == pre.content && post.history@ == pre.history@
    })
    &&& persist_to(pre, post, post.content.text())
}

/// One insert-mode content keystroke applied to the buffer and persisted,
/// with a snapshot; without a document selection nothing happens at all.
pub open spec fn insert_char_rel(pre: AcpiEditor, post: AcpiEditor, c: char) -> bool {
    if pre.files.selected is None {
        post == pre
    } else {
        &&& mutation_env_rel(pre, post)
        &&& post.last_char == pre.last_char
        &&& post.content.text() == pre.content.text().update(
            pre.content.row as int,
            pre.content.cur_line().insert(pre.content.col as int, c),
        )
        &&& post.content.row == pre.content.row
        &&& post.content.col == pre.content.col + 1
        &&& hist_push_rel(pre.history@, post.history@, pre.content)
        &&& persist_to(pre, post, post.content.text())
    }
}

/// The trailing part of the search pattern after its leading markers.
pub open spec fn strip_slashes(s: Seq<char>) -> Seq<char>
    decreases s.len(),
{
    if s.len() > 0 && s[0] == '/' {
        strip_slashes(s.drop_first())
    } else {
        s
    }
}

/// The names joined with a comma between each pair.
pub open spec fn join_names(s: Seq<Vec<char>>, k: int) -> Seq<char>
    decreases k,
{
    if k <= 0 {
        Seq::empty()
    } else if k == 1 {
        s[0]@
    } else {
        join_names(s, k - 1) + seq![','] + s[k - 1]@
    }
}

/// The log lines that the first `k` output lines of the apply tool earn: on
/// success only the non-empty ones, on failure every one.
pub open spec fn logged_upto(ls: Seq<Seq<char>>, k: int, success: bool, at: Stamp) -> Seq<Seq<char>>
    decreases k,
{
    if k <= 0 {
        Seq::empty()
    } else {
        logged_upto(ls, k - 1, success, at) + (if !success || ls[k - 1].len() > 0 {
            seq![log_line_spec(at, ls[k - 1])]
        } else {
            Seq::empty()
        })
    }
}

impl AcpiEditor {
    /// Pushes a snapshot of the active buffer onto the undo history,
    /// evicting the oldest snapshot when the history is full.
    fn snapshot(&mut self)
        requires
            old(self).wf(),
        ensures
            final(self).wf(),
            hist_push_rel(old(self).history@, final(self).history@, old(self).content),
            final(self).files == old(self).files,
            final(self).modified == old(self).modified,
            final(self).content == old(self).content,
            final(self).last_char == old(self).last_char,
            final(self).mode == old(self).mode,
            final(self).search_pattern == old(self).search_pattern,
            final(self).active_pattern == old(self).active_pattern,
            final(self).log == old(self).log,
    {
        let snap = TextBuffer {
            lines: clone_lines(&self.content.lines),
            row: self.content.row,
            col: self.content.col,
        };
        proof {
            assert(view_lines(snap.lines@)[self.content.row as int]
                == snap.lines@[self.content.row as int]@);
            assert(snap.wf());
            assert(buf_eq(snap, self.content));
        }
        if self.history.len() >= MAX_HISTORY_SIZE {
            self.history.remove(0);
        }
        self.history.push(snap);
    }

    /// Loads the active document's content into a fresh edit buffer, clears
    /// the undo history, and logs `<name> selected`; the returned line is
    /// owed to the durable sink. On an empty workspace nothing happens.
    pub fn select_dsl_file(&mut self, at: &Stamp) -> (r: Option<String>)
        requires
            old(self).wf(),
        ensures
            final(self).wf(),
            old(self).files.items@.len() == 0 ==> *final(self) == *old(self) && r is None,
            old(self).files.items@.len() > 0 ==> {
                let i = sel_index(*old(self));
                let doc = old(self).files.items@[i];
                &&& r matches Some(line) && line@ == log_line_spec(*at, doc.name@ + " selected"@)
                &&& final(self).files == old(self).files
                &&& final(self).modified == old(self).modified
                &&& (if doc.content@.len() == 0 {
                    final(self).content.text() == seq![Seq::<char>::empty()]
                } else {
                    final(self).content.text() == view_lines(doc.content@)
                })
                &&& final(self).content.row == 0 && final(self).content.col == 0
                &&& final(self).history@.len() == 0
                &&& final(self).last_char == old(self).last_char
                &&& final(self).mode == old(self).mode
                &&& final(self).search_pattern == old(self).search_pattern
                &&& final(self).active_pattern == old(self).active_pattern
                &&& final(self).log.wf()
                &&& final(self).log.history@ == old(self).log.history@.push(
                    log_line_spec(*at, doc.name@ + " selected"@),
                )
            },
    {
        if self.files.items.len() == 0 {
            return None;
        }
        let i = match self.files.selected {
            Some(i) => i,
            None => 0,
        };
        let text = clone_lines(&self.files.items[i].content);
        self.content = TextBuffer::from_lines(text);
        self.history = Vec::new();
        let mut msg = clone_chars(&self.files.items[i].name);
        let mut suffix = str_to_chars(" selected");
        msg.append(&mut suffix);
        proof {
            assert(msg@ =~= old(self).files.items@[i as int].name@ + " selected"@);
        }
        let line = self.log.append(at, &msg);
        Some(line)
    }

    /// Advances the document selection, wrapping, and loads the newly
    /// selected document.
    pub fn next_dsl_file(&mut self, at: &Stamp) -> (r: Option<String>)
        requires
            old(self).wf(),
        ensures
            final(self).wf(),
            doc_select_rel(
                *old(self),
                *final(self),
                *at,
                r,
                crate::nav::advance_spec(
                    old(self).files.selected,
                    old(self).files.items@.len() as nat,
                ),
            ),
    {
        self.files.next();
        self.select_dsl_file(at)
    }

    /// Retreats the document selection, wrapping, and loads the newly
    /// selected document.
    pub fn previous_dsl_file(&mut self, at: &Stamp) -> (r: Option<String>)
        requires
            old(self).wf(),
        ensures
            final(self).wf(),
            doc_select_rel(
                *old(self),
                *final(self),
                *at,
                r,
                crate::nav::retreat_spec(
                    old(self).files.selected,
                    old(self).files.items@.len() as nat,
                ),
            ),
    {
        self.files.previous();
        self.select_dsl_file(at)
    }

    /// The `g` chord step: a second consecutive `g` jumps to the buffer
    /// start and clears the chord memory; a first `g` only records itself.
    pub fn try_to_start(&mut self)
        requires
            old(self).wf(),
        ensures
            final(self).wf(),
            (if old(self).last_char == 'g' {
                motion_rel(
                    AcpiEditor { last_char: NO_CHORD, ..*old(self) },
                    *final(self),
                ) && final(self).last_char == NO_CHORD && final(self).content.row == 0
                    && final(self).content.col == 0
            } else {
                pending_rel(*old(self), *final(self), 'g')
            }),
    {
        if self.last_char == 'g' {
            self.content.move_top();
            self.last_char = NO_CHORD;
        } else {
            self.last_char = 'g';
        }
    }

    /// The `d d` chord step: a second consecutive `d` clears the current
    /// line's text and persists; a first `d` only records itself.
    pub fn try_delete_line(&mut self)
        requires
            old(self).wf(),
        ensures
            final(self).wf(),
            (if old(self).last_char == 'd' {
                dd_rel(*old(self), *final(self))
            } else {
                pending_rel(*old(self), *final(self), 'd')
            }),
    {
        if self.last_char == 'd' {
            self.snapshot();
            let ghost mid = *self;
            self.content.clear_line();
            let ghost mid2 = *self;
            self.write();
            self.last_char = NO_CHORD;
            proof {
                lemma_persist_frame(mid2, *old(self), *final(self), mid2.content.text());
            }
        } else {
            self.last_char = 'd';
        }
    }

    /// The `w` step: with a pending `d` it deletes to the next word
    /// boundary and persists, else it is a plain word-forward move; either
    /// way the chord memory then holds `w`.
    pub fn try_delete_word(&mut self)
        requires
            old(self).wf(),
        ensures
            final(self).wf(),
            (if old(self).last_char == 'd' {
                dw_rel(*old(self), *final(self))
            } else {
                word_fallback_rel(*old(self), *final(self))
            }),
    {
        if self.last_char == 'd' {
            self.snapshot();
            self.content.delete_word();
            let ghost mid2 = *self;
            self.write();
            self.last_char = 'w';
            proof {
                lemma_persist_frame(mid2, *old(self), *final(self), mid2.content.text());
            }
        } else {
            self.content.move_next_word();
            self.last_char = 'w';
        }
    }

    /// Deletes the character under the cursor and persists.
    pub fn delete_char(&mut self)
        requires
            old(self).wf(),
        ensures
            final(self).wf(),
            delete_char_rel(*old(self), *final(self)),
    {
        self.snapshot();
        self.content.delete_char();
        let ghost mid2 = *self;
        self.write();
        proof {
            lemma_persist_frame(mid2, *old(self), *final(self), mid2.content.text());
        }
    }

    /// Opens an empty line below the cursor, persists, and enters insert
    /// mode on the new line.
    pub fn insert_new_line_below(&mut self)
        requires
            old(self).wf(),
        ensures
            final(self).wf(),
            open_line_rel(*old(self), *final(self), true),
    {
        self.snapshot();
        self.content.insert_line_below();
        let ghost mid2 = *self;
        self.write();
        self.switch_mode(Mode::Insert);
        proof {
            lemma_persist_frame(mid2, *old(self), *final(self), mid2.content.text());
        }
    }

    /// Opens an empty line above the cursor, persists, and enters insert
    /// mode on the new line.
    pub fn insert_new_line_up(&mut self)
        requires
            old(self).wf(),
        ensures
            final(self).wf(),
            open_line_rel(*old(self), *final(self), false),
    {
        self.snapshot();
        self.content.insert_line_above();
        let ghost mid2 = *self;
        self.write();
        self.switch_mode(Mode::Insert);
        proof {
            lemma_persist_frame(mid2, *old(self), *final(self), mid2.content.text());
        }
    }

    /// Restores the most recent undo snapshot, if any, and persists.
    pub fn undo(&mut self)
        requires
            old(self).wf(),
        ensures
            final(self).wf(),
            undo_rel(*old(self), *final(self)),
    {
        match self.history.pop() {
            Some(snap) => {
                self.content = snap;
            },
            None => {},
        }
        proof {
            if old(self).history@.len() > 0 {
                assert(self.history@ =~= old(self).history@.drop_last());
            }
        }
        let ghost mid2 = *self;
        self.write();
        proof {
            lemma_persist_frame(mid2, *old(self), *final(self), mid2.content.text());
        }
    }

    /// One insert-mode content keystroke: the character joins the buffer at
    /// the cursor and the result is persisted; without a selection nothing
    /// happens.
    pub fn insert(&mut self, c: char)
        requires
            old(self).wf(),
            old(self).content.cur_line().len() < usize::MAX,
        ensures
            final(self).wf(),
            insert_char_rel(*old(self), *final(self), c),
    {
        if self.files.selected.is_none() {
            return ;
        }
        self.snapshot();
        self.content.insert_char(c);
        let ghost mid2 = *self;
        self.write();
        proof {
            lemma_persist_frame(mid2, *old(self), *final(self), mid2.content.text());
        }
    }

    /// One search-mode keystroke: a character joins the pattern buffer;
    /// nothing else changes, and other keys do nothing.
    pub fn search_input(&mut self, key: KeyInput)
        requires
            old(self).wf(),
        ensures
            final(self).wf(),
            (match key.code {
                KeyCode::Char(c) => final(self).search_pattern@ == old(self).search_pattern@.push(
                    c,
                ),
                _ => final(self).search_pattern == old(self).search_pattern,
            }),
            final(self).files == old(self).files,
            final(self).modified == old(self).modified,
            final(self).content == old(self).content,
            final(self).history == old(self).history,
            final(self).last_char == old(self).last_char,
            final(self).mode == old(self).mode,
            final(self).active_pattern == old(self).active_pattern,
            final(self).log == old(self).log,
    {
        match key.code {
            KeyCode::Char(c) => {
                self.search_pattern.push(c);
            },
            _ => {},
        }
    }

    /// Commits the pattern buffer: the pattern, stripped of its leading
    /// markers, becomes the active search pattern and the session returns
    /// to normal mode.
    pub fn search(&mut self)
        requires
            old(self).wf(),
        ensures
            final(self).wf(),
            final(self).mode is Normal,
            final(self).active_pattern@ == strip_slashes(old(self).search_pattern@),
            final(self).files == old(self).files,
            final(self).modified == old(self).modified,
            final(self).content == old(self).content,
            final(self).history == old(self).history,
            final(self).last_char == old(self).last_char,
            final(self).search_pattern == old(self).search_pattern,
            final(self).log == old(self).log,
    {
        self.mode = Mode::Normal;
        let mut k: usize = 0;
        let n = self.search_pattern.len();
        proof {
            assert(self.search_pattern@.skip(0) =~= self.search_pattern@);
        }
        while k < n && self.search_pattern[k] == '/'
            invariant
                k <= n,
                n == self.search_pattern@.len(),
                self.search_pattern == old(self).search_pattern,
                strip_slashes(self.search_pattern@) == strip_slashes(
                    self.search_pattern@.skip(k as int),
                ),
            decreases n - k,
        {
            proof {
                assert(self.search_pattern@.skip(k as int).drop_first() =~= self.search_pattern@.skip(
                    k + 1,
                ));
            }
            k += 1;
        }
        let mut pat: Vec<char> = Vec::new();
        let mut t = k;
        while t < n
            invariant
                k <= t <= n,
                n == self.search_pattern@.len(),
                self.search_pattern == old(self).search_pattern,
                pat@ == self.search_pattern@.subrange(k as int, t as int),
            decreases n - t,
        {
            pat.push(self.search_pattern[t]);
            assert(pat@ =~= self.search_pattern@.subrange(k as int, t + 1));
            t += 1;
        }
        proof {
            assert(pat@ =~= self.search_pattern@.skip(k as int));
            assert(self.search_pattern@.skip(k as int).len() == n - k);
        }
        self.active_pattern = pat;
    }

    /// Repeats the active pattern forward from the cursor, wrapping.
    pub fn search_forward(&mut self)
        requires
            old(self).wf(),
        ensures
            final(self).wf(),
            motion_rel(*old(self), *final(self)),
            search_step(old(self).content, final(self).content, old(self).active_pattern@, true),
    {
        let pat = clone_chars(&self.active_pattern);
        self.content.search_forward(&pat);
    }

    /// Repeats the active pattern backward from the cursor, wrapping.
    pub fn search_back(&mut self)
        requires
            old(self).wf(),
        ensures
            final(self).wf(),
            motion_rel(*old(self), *final(self)),
            search_step(old(self).content, final(self).content, old(self).active_pattern@, false),
    {
        let pat = clone_chars(&self.active_pattern);
        self.content.search_back(&pat);
    }

    /// The batch argument for the apply tool: the modified names joined by
    /// commas, or nothing when the modified set is empty.
    pub fn apply_request(&self) -> (r: Option<String>)
        requires
            self.wf(),
        ensures
            (match r {
                None => self.modified.items@.len() == 0,
                Some(arg) => self.modified.items@.len() > 0 && arg@ == join_names(
                    self.modified.items@,
                    self.modified.items@.len() as int,
                ),
            }),
    {
        if self.modified.items.len() == 0 {
            return None;
        }
        let mut out: Vec<char> = Vec::new();
        let mut j: usize = 0;
        while j < self.modified.items.len()
            invariant
                j <= self.modified.items@.len(),
                out@ == join_names(self.modified.items@, j as int),
            decreases self.modified.items@.len() - j,
        {
            if j > 0 {
                out.push(',');
            }
            let mut name = clone_chars(&self.modified.items[j]);
            out.append(&mut name);
            proof {
                assert(out@ =~= join_names(self.modified.items@, j + 1));
            }
            j += 1;
        }
        Some(crate::text::chars_to_string(&out))
    }

    /// Routes the apply tool's captured output into the log: on success
    /// each non-empty line, on failure every line, in order. Returns the
    /// formatted lines owed to the durable sink. The modified set is not
    /// touched.
    pub fn apply_result(&mut self, success: bool, output: &Vec<char>, at: &Stamp) -> (r: Vec<
        String,
    >)
        requires
            old(self).wf(),
        ensures
            final(self).wf(),
            final(self).log.wf(),
            final(self).log.history@ == old(self).log.history@ + logged_upto(
                crate::text::split_lines_spec(output@),
                crate::text::split_lines_spec(output@).len() as int,
                success,
                *at,
            ),
            final(self).files == old(self).files,
            final(self).modified == old(self).modified,
            final(self).content == old(self).content,
            final(self).history == old(self).history,
            final(self).last_char == old(self).last_char,
            final(self).mode == old(self).mode,
            final(self).search_pattern == old(self).search_pattern,
            final(self).active_pattern == old(self).active_pattern,
    {
        let lines = crate::text::split_lines(output);
        let ghost ls = crate::text::split_lines_spec(output@);
        let mut r: Vec<String> = Vec::new();
        let mut j: usize = 0;
        while j < lines.len()
            invariant
                j <= lines@.len(),
                view_lines(lines@) == ls,
                self.log.wf(),
                self.log.history@ == old(self).log.history@ + logged_upto(ls, j as int, success, *at),
                self.files == old(self).files,
                self.modified == old(self).modified,
                self.content == old(self).content,
                self.history == old(self).history,
                self.last_char == old(self).last_char,
                self.mode == old(self).mode,
                self.search_pattern == old(self).search_pattern,
                self.active_pattern == old(self).active_pattern,
                old(self).wf(),
            decreases lines@.len() - j,
        {
            proof {
                assert(ls[j as int] == lines@[j as int]@);
            }
            if !success || lines[j].len() != 0 {
                let line = self.log.append(at, &lines[j]);
                r.push(line);
            }
            proof {
                assert(self.log.history@ =~= old(self).log.history@ + logged_upto(
                    ls,
                    j + 1,
                    success,
                    *at,
                ));
            }
            j += 1;
        }
        r
    }
}

/// A keystroke as the input loop hands it over.
pub enum KeyCode {
    Char(char),
    Up,
    Down,
    PageUp,
    PageDown,
    Esc,
    Enter,
    Backspace,
    Other,
}

pub struct KeyInput {
    pub code: KeyCode,
    pub ctrl: bool,
}

/// What the input loop must do after one keystroke: go on, quit, or run
/// the apply tool with the given batch argument.
pub enum Outcome {
    Continue,
    Quit,
    Apply(String),
}

/// The selection has just become `sel`; the newly active document's content
/// fills a fresh buffer, the history clears, and `<name> selected` is
/// logged; on an empty workspace nothing happens and nothing is logged.
pub open spec fn doc_select_rel(
    pre: AcpiEditor,
    post: AcpiEditor,
    at: Stamp,
    sink: Option<String>,
    sel: Option<usize>,
) -> bool {
    &&& post.files.items == pre.files.items
    &&& post.files.selected == sel
    &&& post.modified == pre.modified
    &&& if pre.files.items@.len() == 0 {
        post == pre && sink is None
    } else {
        let i: int = match sel {
            Some(i) => i as int,
            None => 0,
        };
        let doc = pre.files.items@[i];
        &&& sink matches Some(line) && line@ == log_line_spec(at, doc.name@ + " selected"@)
        &&& (if doc.content@.len() == 0 {
            post.content.text() == seq![Seq::<char>::empty()]
        } else {
            post.content.text() == view_lines(doc.content@)
        })
        &&& post.content.row == 0 && post.content.col == 0
        &&& post.history@.len() == 0
        &&& post.last_char == pre.last_char
        &&& post.mode == pre.mode
        &&& post.search_pattern == pre.search_pattern
        &&& post.active_pattern == pre.active_pattern
        &&& post.log.history@ == pre.log.history@.push(log_line_spec(at, doc.name@ + " selected"@))
    }
}

/// What one keystroke does to the workspace, by mode and key: the whole
/// normal-mode command set with its chord memory, the insert-mode edits,
/// and the search-mode pattern editing, together with the outcome handed
/// to the input loop and the log line owed to the durable sink.
pub open spec fn step_rel(
    pre: AcpiEditor,
    post: AcpiEditor,
    key: KeyInput,
    at: Stamp,
    page: usize,
    outcome: Outcome,
    sink: Option<String>,
) -> bool {
    match pre.mode {
        Mode::Insert => {
            &&& sink is None
            &&& outcome is Continue
            &&& match key.code {
                KeyCode::Esc => post == AcpiEditor { mode: Mode::Normal, ..pre },
                KeyCode::Char(c) => insert_char_rel(pre, post, c),
                KeyCode::Enter => insert_enter_rel(pre, post),
                KeyCode::Backspace => insert_backspace_rel(pre, post),
                _ => post == pre,
            }
        },
        Mode::Search => {
            &&& sink is None
            &&& outcome is Continue
            &&& match key.code {
                KeyCode::Esc => post == AcpiEditor { mode: Mode::Normal, ..pre },
                KeyCode::Enter => post == AcpiEditor {
                    mode: Mode::Normal,
                    active_pattern: post.active_pattern,
                    ..pre
                } && post.active_pattern@ == strip_slashes(pre.search_pattern@),
                KeyCode::Char(c) => post == AcpiEditor {
                    search_pattern: post.search_pattern,
                    ..pre
                } && post.search_pattern@ == pre.search_pattern@.push(c),
                _ => post == pre,
            }
        },
        Mode::Normal => match key.code {
            KeyCode::Char(c) => {
                if key.ctrl && c == 'c' {
                    post == pre && outcome is Quit && sink is None
                } else if key.ctrl && c == 'a' {
                    &&& post == pre
                    &&& sink is None
                    &&& (match outcome {
                        Outcome::Continue => pre.modified.items@.len() == 0,
                        Outcome::Apply(arg) => pre.modified.items@.len() > 0 && arg@ == join_names(
                            pre.modified.items@,
                            pre.modified.items@.len() as int,
                        ),
                        Outcome::Quit => false,
                    })
                } else {
                    &&& sink is None
                    &&& outcome is Continue
                    &&& (match c {
                        'j' => motion_rel(pre, post) && post.content.row == (
                        if pre.content.row + 1 < pre.content.text().len() {
                            pre.content.row + 1
                        } else {
                            pre.content.row as int
                        }) && post.content.col == vstd::math::min(
                            pre.content.col as int,
                            pre.content.text()[post.content.row as int].len() as int,
                        ),
                        'k' => motion_rel(pre, post) && post.content.row == (
                        if pre.content.row > 0 {
                            pre.content.row - 1
                        } else {
                            0int
                        }) && post.content.col == vstd::math::min(
                            pre.content.col as int,
                            pre.content.text()[post.content.row as int].len() as int,
                        ),
                        'l' => motion_rel(pre, post) && (
                        if pre.content.col < pre.content.cur_line().len() {
                            post.content.row == pre.content.row && post.content.col
                                == pre.content.col + 1
                        } else if pre.content.row + 1 < pre.content.text().len() {
                            post.content.row == pre.content.row + 1 && post.content.col == 0
                        } else {
                            post.content.row == pre.content.row && post.content.col
                                == pre.content.col
                        }),
                        'h' => motion_rel(pre, post) && (
                        if pre.content.col > 0 {
                            post.content.row == pre.content.row && post.content.col
                                == pre.content.col - 1
                        } else if pre.content.row > 0 {
                            post.content.row == pre.content.row - 1 && post.content.col
                                == pre.content.text()[pre.content.row - 1].len()
                        } else {
                            post.content.row == pre.content.row && post.content.col
                                == pre.content.col
                        }),
                        'b' => motion_rel(pre, post) && post.content.row == pre.content.row
                            && post.content.col == crate::buffer::prev_word_boundary(
                            pre.content.cur_line(),
                            pre.content.col as nat,
                        ),
                        'G' => motion_rel(pre, post) && post.content.row == pre.content.text().len()
                            - 1 && post.content.col == 0,
                        '0' => motion_rel(pre, post) && post.content.row == pre.content.row
                            && post.content.col == 0,
                        '$' => motion_rel(pre, post) && post.content.row == pre.content.row
                            && post.content.col == pre.content.cur_line().len(),
                        'n' => motion_rel(pre, post) && search_step(
                            pre.content,
                            post.content,
                            pre.active_pattern@,
                            true,
                        ),
                        'N' => motion_rel(pre, post) && search_step(
                            pre.content,
                            post.content,
                            pre.active_pattern@,
                            false,
                        ),
                        'g' => (if pre.last_char == 'g' {
                            motion_rel(AcpiEditor { last_char: NO_CHORD, ..pre }, post)
                                && post.last_char == NO_CHORD && post.content.row == 0
                                && post.content.col == 0
                        } else {
                            pending_rel(pre, post, 'g')
                        }),
                        'i' => post == AcpiEditor { mode: Mode::Insert, ..pre },
                        'a' => post == AcpiEditor {
                            mode: Mode::Insert,
                            content: post.content,
                            ..pre
                        } && post.mode is Insert && post.content.lines == pre.content.lines
                            && motion_rel(AcpiEditor { mode: Mode::Insert, ..pre }, post)
                            && forward_cursor(pre.content, post.content),
                        'o' => open_line_rel(pre, post, true),
                        'O' => open_line_rel(pre, post, false),
                        'd' => (if pre.last_char == 'd' {
                            dd_rel(pre, post)
                        } else {
                            pending_rel(pre, post, 'd')
                        }),
                        'w' => (if pre.last_char == 'd' {
                            dw_rel(pre, post)
                        } else {
                            word_fallback_rel(pre, post)
                        }),
                        'x' => delete_char_rel(pre, post),
                        'u' => undo_rel(pre, post),
                        '/' => post == AcpiEditor {
                            mode: Mode::Search,
                            search_pattern: post.search_pattern,
                            ..pre
                        } && post.search_pattern@ =~= seq!['/'],
                        _ => post == pre,
                    })
                }
            },
            KeyCode::Up => outcome is Continue && doc_select_rel(
                pre,
                post,
                at,
                sink,
                crate::nav::retreat_spec(pre.files.selected, pre.files.items@.len() as nat),
            ),
            KeyCode::Down => outcome is Continue && doc_select_rel(
                pre,
                post,
                at,
                sink,
                crate::nav::advance_spec(pre.files.selected, pre.files.items@.len() as nat),
            ),
            KeyCode::PageUp => outcome is Continue && sink is None && motion_rel(pre, post)
                && post.content.row == vstd::math::max(pre.content.row - page, 0int)
                && post.content.col == vstd::math::min(
                pre.content.col as int,
                pre.content.text()[post.content.row as int].len() as int,
            ),
            KeyCode::PageDown => outcome is Continue && sink is None && motion_rel(pre, post)
                && post.content.row == vstd::math::min(
                pre.content.row + page,
                pre.content.text().len() - 1,
            ) && post.content.col == vstd::math::min(
                pre.content.col as int,
                pre.content.text()[post.content.row as int].len() as int,
            ),
            _ => post == pre && outcome is Continue && sink is None,
        },
    }
}

/// Where a single forward step leaves the cursor: within the line, else at
/// the start of the next line, else where it was.
pub open spec fn forward_cursor(b: TextBuffer, post: TextBuffer) -> bool {
    if b.col < b.cur_line().len() {
        post.row == b.row && post.col == b.col + 1
    } else if b.row + 1 < b.text().len() {
        post.row == b.row + 1 && post.col == 0
    } else {
        post.row == b.row && post.col == b.col
    }
}

/// Where a search repeat leaves the cursor: at the first occurrence of the
/// pattern after it (forward) or the last before it (backward), wrapping to
/// the first or last occurrence in the buffer; with no occurrence at all
/// the cursor stays.
pub open spec fn search_step(b: TextBuffer, post: TextBuffer, pat: Seq<char>, fwd: bool) -> bool {
    if fwd {
        if crate::search::exists_match_after(b.text(), pat, b.row as int, b.col as int) {
            crate::search::first_match_after(
                b.text(),
                pat,
                b.row as int,
                b.col as int,
                post.row as int,
                post.col as int,
            )
        } else if crate::search::exists_match(b.text(), pat) {
            crate::search::first_match(b.text(), pat, post.row as int, post.col as int)
        } else {
            post.row == b.row && post.col == b.col
        }
    } else {
        if crate::search::exists_match_before(b.text(), pat, b.row as int, b.col as int) {
            crate::search::last_match_before(
                b.text(),
                pat,
                b.row as int,
                b.col as int,
                post.row as int,
                post.col as int,
            )
        } else if crate::search::exists_match(b.text(), pat) {
            crate::search::last_match(b.text(), pat, post.row as int, post.col as int)
        } else {
            post.row == b.row && post.col == b.col
        }
    }
}

/// An insert-mode enter: the line splits at the cursor and the result is
/// persisted, with a snapshot; without a selection nothing happens.
pub open spec fn insert_enter_rel(pre: AcpiEditor, post: AcpiEditor) -> bool {
    if pre.files.selected is None {
        post == pre
    } else {
        &&& mutation_env_rel(pre, post)
        &&& post.last_char == pre.last_char
        &&& post.content.text() == pre.content.text().update(
            pre.content.row as int,
            pre.content.cur_line().subrange(0, pre.content.col as int),
        ).insert(
            pre.content.row + 1,
            pre.content.cur_line().subrange(
                pre.content.col as int,
                pre.content.cur_line().len() as int,
            ),
        )
        &&& post.content.row == pre.content.row + 1
        &&& post.content.col == 0
        &&& hist_push_rel(pre.history@, post.history@, pre.content)
        &&& persist_to(pre, post, post.content.text())
    }
}

/// An insert-mode backspace: the character before the cursor leaves the
/// line and the result is persisted, with a snapshot; without a selection
/// nothing happens.
pub open spec fn insert_backspace_rel(pre: AcpiEditor, post: AcpiEditor) -> bool {
    if pre.files.selected is None {
        post == pre
    } else {
        &&& mutation_env_rel(pre, post)
        &&& post.last_char == pre.last_char
        &&& (if pre.content.col > 0 {
            post.content.text() == pre.content.text().update(
                pre.content.row as int,
                pre.content.cur_line().remove(pre.content.col - 1),
            ) && post.content.col == pre.content.col - 1
        } else {
            post.content.text() == pre.content.text() && post.content.col == pre.content.col
        })
        &&& post.content.row == pre.content.row
        &&& hist_push_rel(pre.history@, post.history@, pre.content)
        &&& persist_to(pre, post, post.content.text())
    }
}

impl AcpiEditor {
    /// Enters insert mode and steps the cursor forward one position.
    pub fn insert_next_char(&mut self)
        requires
            old(self).wf(),
        ensures
            final(self).wf(),
            final(self).mode is Insert,
            final(self).content.lines == old(self).content.lines,
            motion_rel(AcpiEditor { mode: Mode::Insert, ..*old(self) }, *final(self)),
            forward_cursor(old(self).content, final(self).content),
    {
        self.switch_mode(Mode::Insert);
        self.content.move_forward();
    }

    /// Routes one keystroke by the current mode, exactly as `step_rel`
    /// says: normal-mode commands with their chords, insert-mode edits,
    /// search-mode pattern editing; quitting and applying are handed back
    /// to the input loop as outcomes. `page` is the page size for the
    /// page-wise cursor motions.
    pub fn handle_input(&mut self, key: KeyInput, at: &Stamp, page: usize) -> (r: (
        Outcome,
        Option<String>,
    ))
        requires
            old(self).wf(),
            old(self).content.cur_line().len() < usize::MAX,
        ensures
            final(self).wf(),
            step_rel(*old(self), *final(self), key, *at, page, r.0, r.1),
    {
        match self.mode {
            Mode::Insert => {
                match key.code {
                    KeyCode::Esc => {
                        self.switch_mode(Mode::Normal);
                    },
                    KeyCode::Char(c) => {
                        self.insert(c);
                    },
                    KeyCode::Enter => {
                        self.insert_enter();
                    },
                    KeyCode::Backspace => {
                        self.insert_backspace();
                    },
                    _ => {},
                }
                (Outcome::Continue, None)
            },
            Mode::Search => {
                match key.code {
                    KeyCode::Esc => {
                        self.switch_mode(Mode::Normal);
                    },
                    KeyCode::Enter => {
                        self.search();
                    },
                    KeyCode::Char(c) => {
                        self.search_pattern.push(c);
                    },
                    _ => {},
                }
                (Outcome::Continue, None)
            },
            Mode::Normal => {
                match key.code {
                    KeyCode::Char(c) => {
                        if key.ctrl && c == 'c' {
                            (Outcome::Quit, None)
                        } else if key.ctrl && c == 'a' {
                            match self.apply_request() {
                                Some(arg) => (Outcome::Apply(arg), None),
                                None => (Outcome::Continue, None),
                            }
                        } else if c == 'j' {
                            self.content.move_down();
                            (Outcome::Continue, None)
                        } else if c == 'k' {
                            self.content.move_up();
                            (Outcome::Continue, None)
                        } else if c == 'l' {
                            self.content.move_forward();
                            (Outcome::Continue, None)
                        } else if c == 'h' {
                            self.content.move_back();
                            (Outcome::Continue, None)
                        } else if c == 'b' {
                            self.content.move_prev_word();
                            (Outcome::Continue, None)
                        } else if c == 'g' {
                            self.try_to_start();
                            (Outcome::Continue, None)
                        } else if c == 'G' {
                            self.content.move_bottom_head();
                            (Outcome::Continue, None)
                        } else if c == '0' {
                            self.content.move_head();
                            (Outcome::Continue, None)
                        } else if c == '$' {
                            self.content.move_end();
                            (Outcome::Continue, None)
                        } else if c == 'n' {
                            self.search_forward();
                            (Outcome::Continue, None)
                        } else if c == 'N' {
                            self.search_back();
                            (Outcome::Continue, None)
                        } else if c == 'i' {
                            self.switch_mode(Mode::Insert);
                            (Outcome::Continue, None)
                        } else if c == 'a' {
                            self.insert_next_char();
                            (Outcome::Continue, None)
                        } else if c == 'o' {
                            self.insert_new_line_below();
                            (Outcome::Continue, None)
                        } else if c == 'O' {
                            self.insert_new_line_up();
                            (Outcome::Continue, None)
                        } else if c == 'd' {
                            self.try_delete_line();
                            (Outcome::Continue, None)
                        } else if c == 'w' {
                            self.try_delete_word();
                            (Outcome::Continue, None)
                        } else if c == 'x' {
                            self.delete_char();
                            (Outcome::Continue, None)
                        } else if c == 'u' {
                            self.undo();
                            (Outcome::Continue, None)
                        } else if c == '/' {
                            self.switch_mode(Mode::Search);
                            (Outcome::Continue, None)
                        } else {
                            (Outcome::Continue, None)
                        }
                    },
                    KeyCode::Up => {
                        let line = self.previous_dsl_file(at);
                        (Outcome::Continue, line)
                    },
                    KeyCode::Down => {
                        let line = self.next_dsl_file(at);
                        (Outcome::Continue, line)
                    },
                    KeyCode::PageUp => {
                        self.content.page_up(page);
                        (Outcome::Continue, None)
                    },
                    KeyCode::PageDown => {
                        self.content.page_down(page);
                        (Outcome::Continue, None)
                    },
                    _ => (Outcome::Continue, None),
                }
            },
        }
    }

    /// An insert-mode enter keystroke: splits the line at the cursor and
    /// persists; without a selection nothing happens.
    pub fn insert_enter(&mut self)
        requires
            old(self).wf(),
        ensures
            final(self).wf(),
            insert_enter_rel(*old(self), *final(self)),
    {
        if self.files.selected.is_none() {
            return ;
        }
        self.snapshot();
        self.content.insert_newline();
        let ghost mid2 = *self;
        self.write();
        proof {
            lemma_persist_frame(mid2, *old(self), *final(self), mid2.content.text());
        }
    }

    /// An insert-mode backspace keystroke: removes the character before the
    /// cursor and persists; without a selection nothing happens.
    pub fn insert_backspace(&mut self)
        requires
            old(self).wf(),
        ensures
            final(self).wf(),
            insert_backspace_rel(*old(self), *final(self)),
    {
        if self.files.selected.is_none() {
            return ;
        }
        self.snapshot();
        self.content.backspace();
        let ghost mid2 = *self;
        self.write();
        proof {
            lemma_persist_frame(mid2, *old(self), *final(self), mid2.content.text());
        }
    }
}

/// Dirty invariant law: in every well-formed workspace a document name is
/// in the modified set exactly when that document's content differs
/// byte-exactly from its baseline; every mutating operation of the
/// workspace ensures well-formedness, so this holds after each of them.
pub proof fn lemma_dirty_invariant(e: AcpiEditor)
    requires
        e.wf(),
    ensures
        forall|i: int|
            0 <= i < e.files.items@.len() ==> (contains_name(
                e.modified.items@,
                #[trigger] e.files.items@[i].name@,
            ) <==> doc_dirty(e.files.items@[i])),
{
}

/// Chord determinism law: one `d` leaves the text unchanged and records
/// the pending chord; `d` then `d` deletes exactly the current line's text
/// and clears the pending state; after a `d`, a key whose own action moves
/// only the cursor (any motion, or a first `g`) leaves the text unchanged.
pub proof fn lemma_chord_determinism(
    e0: AcpiEditor,
    e1: AcpiEditor,
    e2: AcpiEditor,
    e3: AcpiEditor,
)
    requires
        e0.wf(),
        e0.last_char != 'd',
        pending_rel(e0, e1, 'd'),
        dd_rel(e1, e2),
        motion_rel(e1, e3) || pending_rel(e1, e3, 'g'),
    ensures
        e1.content.text() == e0.content.text(),
        e1.last_char == 'd',
        e2.content.text() == e0.content.text().update(
            e0.content.row as int,
            Seq::<char>::empty(),
        ),
        e2.last_char == NO_CHORD,
        e3.content.text() == e0.content.text(),
{
}

/// Undo round-trip law: with a document selected, inserting a character
/// and then undoing returns the buffer to its prior text, and the dirty
/// tracking again reflects that prior text's divergence from the selected
/// document's baseline.
pub proof fn lemma_undo_round_trip(e0: AcpiEditor, e1: AcpiEditor, e2: AcpiEditor, c: char)
    requires
        e0.wf(),
        e0.files.selected is Some,
        insert_char_rel(e0, e1, c),
        undo_rel(e1, e2),
    ensures
        e2.content.text() == e0.content.text(),
        contains_name(e2.modified.items@, e0.files.items@[sel_index(e0)].name@) <==> (
        e0.content.text() != view_lines(e0.files.items@[sel_index(e0)].baseline@)),
{
    let i = sel_index(e0);
    assert(e1.history@.len() > 0);
    assert(buf_eq(e1.history@[e1.history@.len() - 1], e0.content));
    assert(e2.content.text() == e0.content.text());
    assert(e1.files.items@[i].name@ == e0.files.items@[i].name@);
    assert(e1.files.items@[i].baseline == e0.files.items@[i].baseline);
}

} // verus!
