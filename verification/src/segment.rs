//! The cutting of a log into blocks, one line at a time.

use crate::parser::{
    boundary_token, entry_views, extracted, AuditEntry, AuditLogParser, EntryView,
};
use crate::text::{blank, is_blank, optional_text};
use vstd::prelude::*;
use vstd::string::StringExecFns;

verus! {

/// A block of the log: the lines gathered under one chain id.
pub struct Block {
    pub id: Seq<char>,
    pub content: Seq<char>,
}

/// Where the scan of the lines stands: the chain id of the block being
/// gathered, its text so far, and the blocks that are complete.
pub struct ScanState {
    pub current_id: Option<Seq<char>>,
    pub accumulated: Seq<char>,
    pub blocks: Seq<Block>,
}

/// The complete blocks once the block being gathered is closed. A block of
/// nothing but whitespace is dropped.
pub open spec fn flushed(state: ScanState) -> Seq<Block> {
    match state.current_id {
        Some(id) => if blank(state.accumulated) {
            state.blocks
        } else {
            state.blocks.push(Block { id, content: state.accumulated })
        },
        None => state.blocks,
    }
}

/// One step of the scan. A boundary line of another chain id closes the block
/// being gathered and opens one for its id; a boundary line of the same id, and
/// any other line after the first boundary, joins the block; lines before the
/// first boundary are discarded.
pub open spec fn scan_step(state: ScanState, line: Seq<char>) -> ScanState {
    match boundary_token(line) {
        Some(token) => {
            if state.current_id is Some && state.current_id != Some(token) {
                ScanState {
                    current_id: Some(token),
                    accumulated: line.push('\n'),
                    blocks: flushed(state),
                }
            } else {
                ScanState {
                    current_id: Some(token),
                    accumulated: state.accumulated + line.push('\n'),
                    blocks: state.blocks,
                }
            }
        },
        None => {
            if state.current_id is Some {
                ScanState {
                    current_id: state.current_id,
                    accumulated: state.accumulated + line.push('\n'),
                    blocks: state.blocks,
                }
            } else {
                state
            }
        },
    }
}

/// The state of the scan after `lines`.
pub open spec fn scan(lines: Seq<Seq<char>>) -> ScanState
    decreases lines.len(),
{
    if lines.len() == 0 {
        ScanState { current_id: None, accumulated: Seq::empty(), blocks: Seq::empty() }
    } else {
        scan_step(scan(lines.drop_last()), lines.last())
    }
}

/// The blocks of a log of `lines`, in the order in which they end.
pub open spec fn blocks_of(lines: Seq<Seq<char>>) -> Seq<Block> {
    flushed(scan(lines))
}

/// `records` are the records of `blocks`, one for one; each has the fields
/// extracted from its block, and the block's timestamp where it holds one.
pub open spec fn records_of(records: Seq<EntryView>, blocks: Seq<Block>) -> bool {
    &&& records.len() == blocks.len()
    &&& forall|i: int|
        0 <= i < records.len() ==> (#[trigger] records[i]) == extracted(
            blocks[i].id,
            blocks[i].content,
            records[i].timestamp,
        )
}

/// The scan of a log, fed line by line.
pub struct Segmenter<'p> {
    parser: &'p AuditLogParser,
    current_id: Option<String>,
    accumulated: String,
    entries: Vec<AuditEntry>,
    seen: Ghost<Seq<Seq<char>>>,
}

impl<'p> Segmenter<'p> {
    /// The lines fed so far.
    pub closed spec fn lines(&self) -> Seq<Seq<char>> {
        self.seen@
    }

    /// The records of the blocks that are complete.
    pub closed spec fn records(&self) -> Seq<EntryView> {
        entry_views(self.entries@)
    }

    /// The scan stands where the lines fed so far have brought it.
    pub closed spec fn wf(&self) -> bool {
        &&& self.parser.wf()
        &&& optional_text(self.current_id) == scan(self.seen@).current_id
        &&& self.accumulated@ == scan(self.seen@).accumulated
        &&& records_of(entry_views(self.entries@), scan(self.seen@).blocks)
    }

    /// A scan that has seen no line yet.
    pub fn new(parser: &'p AuditLogParser) -> (segmenter: Segmenter<'p>)
        requires
            parser.wf(),
        ensures
            segmenter.wf(),
            segmenter.lines() == Seq::<Seq<char>>::empty(),
    {
        Segmenter {
            parser,
            current_id: None,
            accumulated: String::new(),
            entries: Vec::new(),
            seen: Ghost(Seq::empty()),
        }
    }

    /// The number of records found so far: one for each block that is complete.
    pub fn entries_found(&self) -> (n: usize)
        requires
            self.wf(),
        ensures
            n == self.records().len(),
            n == scan(self.lines()).blocks.len(),
    {
        self.entries.len()
    }

    /// Feeds the next line of the log, without its line ending.
    pub fn feed_line(&mut self, line: &str)
        requires
            old(self).wf(),
        ensures
            final(self).wf(),
            final(self).lines() == old(self).lines().push(line@),
    {
        let ghost before = scan(self.seen@);
        proof {
            reveal_strlit("\n");
            assert("\n"@ == seq!['\n']);
            assert(self.seen@.push(line@).drop_last() =~= self.seen@);
            assert(line@ + seq!['\n'] == line@.push('\n'));
        }
        match self.parser.boundary_token_of(line) {
            Some(token) => {
                let switches = match &self.current_id {
                    Some(current) => *current != token,
                    None => false,
                };
                if switches {
                    let mut content = String::new();
                    core::mem::swap(&mut self.accumulated, &mut content);
                    let mut id = Some(token);
                    core::mem::swap(&mut self.current_id, &mut id);
                    if !is_blank(content.as_str()) {
                        let entry = self.parser.create_entry(id.unwrap(), content);
                        self.entries.push(entry);
                        assert(entry_views(self.entries@) == entry_views(old(self).entries@).push(
                            entry@,
                        ));
                    }
                } else {
                    self.current_id = Some(token);
                }
                self.accumulated.append(line);
                self.accumulated.append("\n");
            },
            None => {
                if self.current_id.is_some() {
                    self.accumulated.append(line);
                    self.accumulated.append("\n");
                }
            },
        }
        self.seen = Ghost(self.seen@.push(line@));
        assert(self.accumulated@ == scan_step(before, line@).accumulated);
    }

    /// Closes the block being gathered and hands out the records of all blocks.
    pub fn finish(self) -> (entries: Vec<AuditEntry>)
        requires
            self.wf(),
        ensures
            records_of(entry_views(entries@), blocks_of(self.lines())),
    {
        let mut entries = self.entries;
        match self.current_id {
            Some(id) => {
                if !is_blank(self.accumulated.as_str()) {
                    let ghost found = entry_views(entries@);
                    let entry = self.parser.create_entry(id, self.accumulated);
                    entries.push(entry);
                    assert(entry_views(entries@) == found.push(entry@));
                }
            },
            None => {},
        }
        entries
    }
}

} // verus!
