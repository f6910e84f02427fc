//! Shell activity: new commands read from the PowerShell history file.
//!
//! The collector keeps the byte length of the file it has read; each pass
//! takes the bytes past that offset, one command per non-blank line, hashed
//! by default since commands often hold secrets.

use vstd::prelude::*;
use vstd::string::StrSliceExecFns;
use crate::collector::OffsetTracker;
use crate::json::{Json, JsonValue};
use crate::parse::{lines_of, lossy_text, parse_u64, parsed_u64, text_lines, utf8_lossy};
use crate::schema::RawEvent;
use crate::text::{default_hash, hash_str, hex, hex16_of, owned, string_of, trim, trimmed, zero_pad};

verus! {

/// Seconds between two reads of the history file.
pub const SHELL_POLL_SECS: u64 = 5;

/// A command's hash: the `DefaultHasher` hash of the text, as 16 lowercase
/// hexadecimal digits.
pub open spec fn command_hash(cmd: Seq<char>) -> Seq<char> {
    zero_pad(hex(default_hash(cmd) as nat), 16)
}

/// The commands in some lines: each non-blank line, trimmed, hashed or not.
pub open spec fn commands_in(lines: Seq<Seq<char>>, hash: bool) -> Seq<Seq<char>>
    decreases lines.len(),
{
    if lines.len() == 0 {
        Seq::empty()
    } else {
        let t = trimmed(lines.last());
        commands_in(lines.drop_last(), hash) + (if t.len() == 0 {
            Seq::<Seq<char>>::empty()
        } else if hash {
            seq![command_hash(t)]
        } else {
            seq![t]
        })
    }
}

/// The offset a collector starts from: the stored one when it parses,
/// else 0; and 0 when the file has since shrunk below it.
pub open spec fn start_offset_for(saved: Option<Seq<char>>, file_len: Option<u64>) -> u64 {
    let stored: u64 = match saved {
        Some(s) => match parsed_u64(s) {
            Some(v) => v,
            None => 0,
        },
        None => 0,
    };
    match file_len {
        Some(n) => if n < stored { 0 } else { stored },
        None => stored,
    }
}

/// Shell activity collector: reads PowerShell history for new commands.
pub struct ShellActivityCollector {
    tracker: OffsetTracker,
    hash_commands: bool,
}

impl ShellActivityCollector {
    /// Whether commands are hashed.
    pub closed spec fn hashes(&self) -> bool {
        self.hash_commands
    }

    /// The offset tracker.
    pub closed spec fn tracker_view(&self) -> OffsetTracker {
        self.tracker
    }

    /// A collector for the given database; commands are hashed.
    pub fn new(db_path: String) -> (c: ShellActivityCollector)
        ensures
            c.hashes(),
            c.tracker_view().name_view() == "shell_activity"@,
            c.tracker_view().path_view() == db_path@,
    {
        ShellActivityCollector { tracker: OffsetTracker::new(owned("shell_activity"), db_path), hash_commands: true }
    }

    /// Sets whether commands are hashed.
    pub fn with_hash_commands(self, hash: bool) -> (c: ShellActivityCollector)
        ensures
            c.hashes() == hash,
            c.tracker_view() == self.tracker_view(),
    {
        ShellActivityCollector { tracker: self.tracker, hash_commands: hash }
    }

    /// The collector's name.
    pub fn name(&self) -> (n: &'static str)
        ensures
            n@ == "shell_activity"@,
    {
        "shell_activity"
    }

    /// The offset tracker.
    pub fn tracker(&self) -> (t: &OffsetTracker)
        ensures
            *t == self.tracker_view(),
    {
        &self.tracker
    }

    /// A command's hash (see `command_hash`).
    pub fn hash_command(cmd: &str) -> (h: String)
        ensures
            h@ == command_hash(cmd@),
            h@.len() == 16,
    {
        let h = hex16_of(hash_str(cmd));
        proof {
            crate::text::lemma_hex_digits(default_hash(cmd@) as nat);
            crate::text::lemma_hex_len(default_hash(cmd@) as nat);
        }
        string_of(&h)
    }

    /// The offset to start reading from (see `start_offset_for`), given the
    /// stored offset and the history file's current length, if known.
    pub fn start_offset(saved: &Option<String>, file_len: Option<u64>) -> (r: u64)
        ensures
            r == start_offset_for(match saved {
                Some(s) => Some(s@),
                None => None,
            }, file_len),
    {
        let stored: u64 = match saved {
            Some(s) => match parse_u64(s.as_str()) {
                Some(v) => v,
                None => 0,
            },
            None => 0,
        };
        match file_len {
            Some(n) => if n < stored { 0 } else { stored },
            None => stored,
        }
    }

    /// The commands past `offset` in the history file's contents, and the
    /// new offset (the file's length). `None` when nothing was added.
    pub fn new_commands(&self, offset: u64, contents: &Vec<u8>) -> (r: Option<(Vec<String>, u64)>)
        ensures
            contents@.len() <= offset ==> r is None,
            contents@.len() > offset ==> (r matches Some((cmds, next)) && next == contents@.len()
                && cmds@.len() == commands_in(text_lines(lossy_text(contents@.skip(offset as int))), self.hashes()).len()
                && forall|i: int| 0 <= i < cmds@.len() ==> (#[trigger] cmds@[i])@
                    == commands_in(text_lines(lossy_text(contents@.skip(offset as int))), self.hashes())[i]),
    {
        let len = contents.len();
        if (len as u64) <= offset {
            return None;
        }
        let start = offset as usize;
        let mut tail: Vec<u8> = Vec::new();
        let mut k: usize = start;
        while k < len
            invariant
                len == contents@.len(),
                start <= k <= len,
                tail@ == contents@.subrange(start as int, k as int),
            decreases len - k,
        {
            tail.push(contents[k]);
            k = k + 1;
            assert(tail@ =~= contents@.subrange(start as int, k as int));
        }
        assert(tail@ =~= contents@.skip(offset as int));
        let text = utf8_lossy(tail.as_slice());
        let lines = lines_of(text.as_str());
        let ghost ls = text_lines(text@);
        let mut cmds: Vec<String> = Vec::new();
        let mut i: usize = 0;
        while i < lines.len()
            invariant
                i <= lines@.len(),
                lines@.len() == ls.len(),
                forall|j: int| 0 <= j < lines@.len() ==> (#[trigger] lines@[j])@ == ls[j],
                cmds@.len() == commands_in(ls.take(i as int), self.hash_commands).len(),
                forall|j: int| 0 <= j < cmds@.len() ==> (#[trigger] cmds@[j])@ == commands_in(ls.take(i as int),
                    self.hash_commands)[j],
            decreases lines@.len() - i,
        {
            let ghost before = commands_in(ls.take(i as int), self.hash_commands);
            assert(ls.take(i + 1).drop_last() =~= ls.take(i as int));
            assert(ls.take(i + 1).last() == lines@[i as int]@);
            let t = trim(lines[i].as_str());
            if t.unicode_len() != 0 {
                let value = if self.hash_commands { Self::hash_command(t) } else { owned(t) };
                cmds.push(value);
            }
            assert(commands_in(ls.take(i + 1), self.hash_commands).len() == cmds@.len());
            assert forall|j: int| 0 <= j < cmds@.len() implies (#[trigger] cmds@[j])@ == commands_in(ls.take(i + 1),
                self.hash_commands)[j] by {
                if j < before.len() {
                }
            }
            i = i + 1;
        }
        assert(ls.take(i as int) =~= ls);
        Some((cmds, len as u64))
    }

    /// The raw event for one command.
    pub fn command_event(&self, value: String) -> (e: RawEvent)
        ensures
            e.source@ == "shell_activity"@,
            e.payload.value() == JsonValue::Object(seq![
                ("command"@, JsonValue::Str(value@)),
                ("shell"@, JsonValue::Str("powershell"@)),
                ("hashed"@, JsonValue::Bool(self.hashes())),
            ]),
    {
        let ghost v = value@;
        let mut m: Vec<(String, Json)> = Vec::new();
        m.push((owned("command"), Json::Str(value)));
        m.push((owned("shell"), Json::Str(owned("powershell"))));
        m.push((owned("hashed"), Json::Bool(self.hash_commands)));
        let payload = Json::Object(m);
        proof {
            reveal_with_fuel(Json::value, 2);
            assert(payload.value()->Object_0 =~= seq![
                ("command"@, JsonValue::Str(v)),
                ("shell"@, JsonValue::Str("powershell"@)),
                ("hashed"@, JsonValue::Bool(self.hash_commands)),
            ]);
        }
        RawEvent::new(owned("shell_activity"), payload)
    }
}

} // verus!
