//! Named text channels: a write buffer, savepoints into it, and the lines shown.
use vstd::prelude::*;

use crate::text::char_vec;
use crate::text::string_from_chars;
use crate::xml::str_equal;

verus! {

/// A line without one trailing carriage return.
pub open spec fn strip_cr(line: Seq<char>) -> Seq<char> {
    if line.len() > 0 && line.last() == '\r' {
        line.drop_last()
    } else {
        line
    }
}

/// Reading `s` from the left: the lines ended by a newline so far, and the
/// characters since the last newline.
pub open spec fn scan_lines(s: Seq<char>) -> (Seq<Seq<char>>, Seq<char>)
    decreases s.len(),
{
    if s.len() == 0 {
        (Seq::empty(), Seq::empty())
    } else {
        let (done, cur) = scan_lines(s.drop_last());
        if s.last() == '\n' {
            (done.push(strip_cr(cur)), Seq::empty())
        } else {
            (done, cur.push(s.last()))
        }
    }
}

/// The lines of `s`: split at each newline, without a trailing carriage return,
/// and without an empty last line.
pub open spec fn lines_of(s: Seq<char>) -> Seq<Seq<char>> {
    let (done, cur) = scan_lines(s);
    if cur.len() == 0 {
        done
    } else {
        done.push(strip_cr(cur))
    }
}

/// The lines joined with newline separators.
pub open spec fn joined(lines: Seq<Seq<char>>) -> Seq<char>
    decreases lines.len(),
{
    if lines.len() == 0 {
        Seq::empty()
    } else if lines.len() == 1 {
        lines[0]
    } else {
        joined(lines.drop_last()) + seq!['\n'] + lines.last()
    }
}

/// Each line followed by a newline.
pub open spec fn terminated(lines: Seq<Seq<char>>) -> Seq<char>
    decreases lines.len(),
{
    if lines.len() == 0 {
        Seq::empty()
    } else {
        terminated(lines.drop_last()) + lines.last() + seq!['\n']
    }
}

/// Splits text into lines.
pub fn split_lines(text: &Vec<char>) -> (r: Vec<String>)
    ensures
        r@.map_values(|l: String| l@) == lines_of(text@),
{
    let mut lines: Vec<String> = Vec::new();
    let mut cur: Vec<char> = Vec::new();
    let mut i: usize = 0;
    while i < text.len()
        invariant
            0 <= i <= text@.len(),
            scan_lines(text@.subrange(0, i as int)) == (lines@.map_values(|l: String| l@), cur@),
        decreases text@.len() - i,
    {
        assert(text@.subrange(0, (i + 1) as int).drop_last() =~= text@.subrange(0, i as int));
        let c = text[i];
        if c == '\n' {
            if cur.len() > 0 && cur[cur.len() - 1] == '\r' {
                cur.pop();
            }
            let line = string_from_chars(&cur);
            lines.push(line);
            cur = Vec::new();
            assert(lines@.map_values(|l: String| l@) =~= scan_lines(
                text@.subrange(0, (i + 1) as int),
            ).0);
        } else {
            cur.push(c);
        }
        i = i + 1;
    }
    assert(text@.subrange(0, text@.len() as int) =~= text@);
    if cur.len() > 0 {
        if cur[cur.len() - 1] == '\r' {
            cur.pop();
        }
        let line = string_from_chars(&cur);
        lines.push(line);
        assert(lines@.map_values(|l: String| l@) =~= lines_of(text@));
    }
    lines
}

/// One channel: what writers appended, the savepoints into it, and the lines
/// that were last unloaded for display.
pub struct Channel {
    pub name: String,
    pub buffer: Vec<char>,
    pub lines: Vec<String>,
    pub savepoints: std::collections::HashMap<usize, usize>,
}

impl Channel {
    /// The lines as text.
    pub open spec fn lines_view(&self) -> Seq<Seq<char>> {
        self.lines@.map_values(|l: String| l@)
    }

    /// The lines that `unload(savepoint)` shows.
    pub open spec fn unloaded(&self, savepoint: usize) -> Seq<Seq<char>> {
        if self.savepoints@.contains_key(savepoint) && self.savepoints@[savepoint]
            <= self.buffer@.len() {
            lines_of(self.buffer@.subrange(0, self.savepoints@[savepoint] as int))
        } else {
            Seq::empty()
        }
    }

    /// Every savepoint lies within the buffer.
    pub open spec fn wf(&self) -> bool {
        forall|k: usize| #[trigger]
            self.savepoints@.contains_key(k) ==> self.savepoints@[k] <= self.buffer@.len()
    }

    /// An empty channel.
    pub fn new(name: String) -> (r: Channel)
        ensures
            r.name == name,
            r.buffer@.len() == 0,
            r.lines@.len() == 0,
            r.savepoints@ == Map::<usize, usize>::empty(),
            r.wf(),
    {
        Channel {
            name,
            buffer: Vec::new(),
            lines: Vec::new(),
            savepoints: std::collections::HashMap::new(),
        }
    }

    /// An empty channel named `default`.
    pub fn default() -> (r: Channel)
        ensures
            r.name@ == "default"@,
            r.buffer@.len() == 0,
            r.lines@.len() == 0,
            r.savepoints@ == Map::<usize, usize>::empty(),
            r.wf(),
    {
        Channel::new("default".to_owned())
    }

    /// Appends a chunk to the buffer.
    pub fn write(&mut self, chunk: &str)
        requires
            old(self).buffer@.len() + chunk@.len() <= usize::MAX,
        ensures
            final(self).buffer@ == old(self).buffer@ + chunk@,
            final(self).name == old(self).name,
            final(self).lines == old(self).lines,
            final(self).savepoints == old(self).savepoints,
            old(self).wf() ==> final(self).wf(),
    {
        let cs = char_vec(chunk);
        let mut i: usize = 0;
        while i < cs.len()
            invariant
                0 <= i <= cs@.len(),
                cs@ == chunk@,
                self.buffer@ == old(self).buffer@ + cs@.subrange(0, i as int),
                self.name == old(self).name,
                self.lines == old(self).lines,
                self.savepoints == old(self).savepoints,
                old(self).buffer@.len() + chunk@.len() <= usize::MAX,
            decreases cs@.len() - i,
        {
            self.buffer.push(cs[i]);
            i = i + 1;
            assert(self.buffer@ =~= old(self).buffer@ + cs@.subrange(0, i as int));
        }
        assert(cs@.subrange(0, cs@.len() as int) =~= cs@);
    }

    /// Appends a chunk and a newline to the buffer.
    pub fn writeln(&mut self, chunk: &str)
        requires
            old(self).buffer@.len() + chunk@.len() < usize::MAX,
        ensures
            final(self).buffer@ == old(self).buffer@ + chunk@ + seq!['\n'],
            final(self).name == old(self).name,
            final(self).lines == old(self).lines,
            final(self).savepoints == old(self).savepoints,
            old(self).wf() ==> final(self).wf(),
    {
        self.write(chunk);
        self.buffer.push('\n');
    }

    /// Records the current length of the buffer under `savepoint`.
    pub fn savepoint(&mut self, savepoint: usize)
        ensures
            final(self).savepoints@ == old(self).savepoints@.insert(savepoint, old(self).buffer@.len() as usize),
            final(self).buffer == old(self).buffer,
            final(self).name == old(self).name,
            final(self).lines == old(self).lines,
            old(self).wf() ==> final(self).wf(),
    {
        let len = self.buffer.len();
        self.savepoints.insert(savepoint, len);
    }

    /// Replaces the lines with those of the buffer up to `savepoint`; with no
    /// such savepoint, with none.
    pub fn unload(&mut self, savepoint: usize)
        ensures
            final(self).lines_view() == old(self).unloaded(savepoint),
            final(self).buffer == old(self).buffer,
            final(self).name == old(self).name,
            final(self).savepoints == old(self).savepoints,
            old(self).wf() ==> final(self).wf(),
    {
        match self.savepoints.get(&savepoint) {
            Some(offset) => {
                let offset = *offset;
                if offset <= self.buffer.len() {
                    let mut prefix: Vec<char> = Vec::new();
                    let mut i: usize = 0;
                    while i < offset
                        invariant
                            0 <= i <= offset <= self.buffer@.len(),
                            prefix@ == self.buffer@.subrange(0, i as int),
                        decreases offset - i,
                    {
                        prefix.push(self.buffer[i]);
                        i = i + 1;
                        assert(prefix@ =~= self.buffer@.subrange(0, i as int));
                    }
                    self.lines = split_lines(&prefix);
                } else {
                    self.lines = Vec::new();
                    assert(self.lines_view() =~= Seq::<Seq<char>>::empty());
                }
            },
            None => {
                self.lines = Vec::new();
                assert(self.lines_view() =~= Seq::<Seq<char>>::empty());
            },
        }
    }

    /// The lines from `scroll` on, at most `height` of them.
    pub fn viewport(&self, height: u16, scroll: u16) -> (r: Vec<String>)
        ensures
            ({
                let len = self.lines@.len() as int;
                let y1 = if (scroll as int) < len { scroll as int } else { len };
                let y2 = if (scroll as int) + (height as int) < len { (scroll as int) + (height as int) } else { len };
                r@ == self.lines@.subrange(y1, y2)
            }),
    {
        let len = self.lines.len();
        let y1: usize = if (scroll as usize) < len { scroll as usize } else { len };
        let end: usize = scroll as usize + height as usize;
        let y2: usize = if end < len { end } else { len };
        let mut out: Vec<String> = Vec::new();
        let mut i = y1;
        while i < y2
            invariant
                y1 <= i <= y2 <= len == self.lines@.len(),
                out@ == self.lines@.subrange(y1 as int, i as int),
            decreases y2 - i,
        {
            out.push(self.lines[i].clone());
            i = i + 1;
            assert(out@ =~= self.lines@.subrange(y1 as int, i as int));
        }
        out
    }
}

/// The lines of text with no carriage return, joined with newlines, are a prefix
/// of the text.
pub proof fn lemma_lines_prefix(s: Seq<char>)
    requires
        forall|i: int| 0 <= i < s.len() ==> s[i] != '\r',
    ensures
        joined(lines_of(s)).len() <= s.len(),
        joined(lines_of(s)) == s.subrange(0, joined(lines_of(s)).len() as int),
{
    lemma_scan_shape(s);
    let (done, cur) = scan_lines(s);
    if cur.len() == 0 {
        if done.len() > 0 {
            lemma_joined_terminated(done);
            assert(s.subrange(0, joined(done).len() as int) =~= joined(done));
        } else {
            assert(s.subrange(0, 0) =~= joined(done));
        }
    } else {
        assert(strip_cr(cur) == cur);
        let all = done.push(cur);
        assert(all.drop_last() =~= done);
        if done.len() > 0 {
            lemma_joined_terminated(done);
            assert(joined(all) =~= s);
        } else {
            assert(joined(all) =~= s);
        }
        assert(s.subrange(0, s.len() as int) =~= s);
    }
}

/// Text without carriage returns is its ended lines, each with its newline, and
/// then the characters since the last newline.
proof fn lemma_scan_shape(s: Seq<char>)
    requires
        forall|i: int| 0 <= i < s.len() ==> s[i] != '\r',
    ensures
        terminated(scan_lines(s).0) + scan_lines(s).1 == s,
        forall|i: int| 0 <= i < scan_lines(s).1.len() ==> scan_lines(s).1[i] != '\r',
    decreases s.len(),
{
    if s.len() > 0 {
        let p = s.drop_last();
        lemma_scan_shape(p);
        let (done, cur) = scan_lines(p);
        assert(s =~= p.push(s.last()));
        if s.last() == '\n' {
            if cur.len() > 0 {
                assert(cur.last() != '\r');
            }
            assert(strip_cr(cur) == cur);
            assert(done.push(cur).drop_last() =~= done);
            assert(terminated(done.push(cur)) + Seq::<char>::empty() =~= s);
        } else {
            assert(terminated(done) + cur.push(s.last()) =~= s);
        }
    }
}

/// Joining non-empty lines and adding one newline gives the lines each ended by a newline.
proof fn lemma_joined_terminated(lines: Seq<Seq<char>>)
    requires
        lines.len() > 0,
    ensures
        joined(lines) + seq!['\n'] == terminated(lines),
    decreases lines.len(),
{
    if lines.len() == 1 {
        assert(lines.drop_last() =~= Seq::<Seq<char>>::empty());
        assert(terminated(lines.drop_last()) == Seq::<char>::empty());
        assert(terminated(lines) =~= lines[0] + seq!['\n']);
    } else {
        lemma_joined_terminated(lines.drop_last());
        assert(joined(lines) + seq!['\n'] =~= terminated(lines));
    }
}

/// After `unload(savepoint)`, the shown lines joined with newlines are a prefix of
/// what had been written when the savepoint was recorded (for text without
/// carriage returns, which the line split drops).
pub proof fn lemma_unload_prefix(c: Channel, savepoint: usize)
    requires
        c.wf(),
        c.savepoints@.contains_key(savepoint),
        forall|i: int| 0 <= i < c.buffer@.len() ==> c.buffer@[i] != '\r',
    ensures
        joined(c.unloaded(savepoint)).len() <= c.savepoints@[savepoint],
        joined(c.unloaded(savepoint)) == c.buffer@.subrange(
            0,
            joined(c.unloaded(savepoint)).len() as int,
        ),
{
    let off = c.savepoints@[savepoint] as int;
    let written = c.buffer@.subrange(0, off);
    lemma_lines_prefix(written);
    assert(written.subrange(0, joined(lines_of(written)).len() as int) =~= c.buffer@.subrange(
        0,
        joined(lines_of(written)).len() as int,
    ));
}

/// The channels, in the order in which they were first written.
pub struct Channels {
    pub channels: Vec<Channel>,
}

impl Channels {
    /// No two channels share a name, and each channel is well formed.
    pub open spec fn wf(&self) -> bool {
        &&& forall|i: int, j: int|
            0 <= i < j < self.channels@.len() ==> #[trigger] self.channels@[i].name@
                != #[trigger] self.channels@[j].name@
        &&& forall|i: int| 0 <= i < self.channels@.len() ==> #[trigger] self.channels@[i].wf()
    }

    /// The index of the channel named `name`, if there is one.
    pub open spec fn index_of(&self, name: Seq<char>) -> Option<int> {
        if exists|i: int| 0 <= i < self.channels@.len() && #[trigger] self.channels@[i].name@ == name {
            Some(choose|i: int| 0 <= i < self.channels@.len() && #[trigger] self.channels@[i].name@ == name)
        } else {
            None
        }
    }

    /// No channels.
    pub fn new() -> (r: Channels)
        ensures
            r.channels@.len() == 0,
            r.wf(),
    {
        Channels { channels: Vec::new() }
    }

    /// Drops all channels.
    pub fn reset(&mut self)
        ensures
            final(self).channels@.len() == 0,
            final(self).wf(),
    {
        self.channels = Vec::new();
    }

    /// The number of channels.
    pub fn count(&self) -> (r: usize)
        ensures
            r == self.channels@.len(),
    {
        self.channels.len()
    }

    /// The position of the channel named `name`.
    pub fn offset_by_name(&self, name: &str) -> (r: Option<usize>)
        requires
            self.wf(),
        ensures
            match r {
                Some(i) => i < self.channels@.len() && self.channels@[i as int].name@ == name@,
                None => self.index_of(name@).is_none(),
            },
    {
        let mut i: usize = 0;
        while i < self.channels.len()
            invariant
                0 <= i <= self.channels@.len(),
                forall|j: int| 0 <= j < i ==> #[trigger] self.channels@[j].name@ != name@,
            decreases self.channels@.len() - i,
        {
            if str_equal(self.channels[i].name.as_str(), name) {
                return Some(i);
            }
            i = i + 1;
        }
        None
    }

    /// The channel named `name`, if there is one.
    pub fn get(&self, name: &str) -> (r: Option<&Channel>)
        requires
            self.wf(),
        ensures
            match r {
                Some(c) => c.name@ == name@ && exists|i: int|
                    0 <= i < self.channels@.len() && #[trigger] self.channels@[i] == *c,
                None => self.index_of(name@).is_none(),
            },
    {
        match self.offset_by_name(name) {
            Some(i) => {
                assert(self.channels@[i as int] == self.channels@[i as int]);
                Some(&self.channels[i])
            },
            None => None,
        }
    }

    /// The channel at position `offset`, if there is one.
    pub fn channel_by_offset(&self, offset: usize) -> (r: Option<&Channel>)
        ensures
            match r {
                Some(c) => offset < self.channels@.len() && *c == self.channels@[offset as int],
                None => offset >= self.channels@.len(),
            },
    {
        if offset < self.channels.len() {
            Some(&self.channels[offset])
        } else {
            None
        }
    }

    /// The names of the channels, in order.
    pub fn names(&self) -> (r: Vec<String>)
        ensures
            r@.len() == self.channels@.len(),
            forall|i: int| 0 <= i < r@.len() ==> r@[i] == #[trigger] self.channels@[i].name,
    {
        let mut out: Vec<String> = Vec::new();
        let mut i: usize = 0;
        while i < self.channels.len()
            invariant
                0 <= i <= self.channels@.len(),
                out@.len() == i,
                forall|j: int| 0 <= j < i ==> out@[j] == #[trigger] self.channels@[j].name,
            decreases self.channels@.len() - i,
        {
            out.push(self.channels[i].name.clone());
            i = i + 1;
        }
        out
    }

    /// The position of the channel named `name`, which is added at the end, empty,
    /// where there is none.
    pub fn get_mut(&mut self, name: &str) -> (r: usize)
        requires
            old(self).wf(),
        ensures
            final(self).wf(),
            r < final(self).channels@.len(),
            final(self).channels@[r as int].name@ == name@,
            match old(self).index_of(name@) {
                Some(_) => final(self).channels@ == old(self).channels@,
                None => final(self).channels@.len() == old(self).channels@.len() + 1
                    && r == old(self).channels@.len()
                    && final(self).channels@.drop_last() == old(self).channels@
                    && final(self).channels@.last().buffer@.len() == 0
                    && final(self).channels@.last().lines@.len() == 0,
            },
    {
        match self.offset_by_name(name) {
            Some(i) => i,
            None => {
                let c = Channel::new(name.to_owned());
                self.channels.push(c);
                assert(self.channels@.drop_last() =~= old(self).channels@);
                self.channels.len() - 1
            },
        }
    }

    /// Appends a chunk to the channel named `name`, adding it where there is none.
    pub fn write(&mut self, name: &str, chunk: &str)
        requires
            old(self).wf(),
            chunk@.len() <= usize::MAX,
            forall|i: int|
                0 <= i < old(self).channels@.len() ==> #[trigger] old(self).channels@[i].buffer@.len()
                    + chunk@.len() <= usize::MAX,
        ensures
            final(self).wf(),
            exists|k: int|
                0 <= k < final(self).channels@.len() && #[trigger] final(self).channels@[k].name@
                    == name@ && final(self).channels@[k].buffer@ == (if k < old(self).channels@.len() {
                    old(self).channels@[k].buffer@
                } else {
                    Seq::<char>::empty()
                }) + chunk@ && forall|j: int|
                    0 <= j < final(self).channels@.len() && j != k ==> final(self).channels@[j]
                        == old(self).channels@[j],
            final(self).channels@.len() >= old(self).channels@.len(),
    {
        let k = self.get_mut(name);
        proof {
            if old(self).index_of(name@).is_some() {
                assert(old(self).channels@[k as int].buffer@.len() + chunk@.len() <= usize::MAX);
            }
        }
        let ghost before = self.channels@;
        let mut c = self.channels.remove(k);
        assert(c == before[k as int]);
        c.write(chunk);
        self.channels.insert(k, c);
        assert(self.channels@ =~= before.update(k as int, self.channels@[k as int]));
        assert(self.channels@[k as int].name@ == name@);
        assert forall|i: int, j: int|
            0 <= i < j < self.channels@.len() implies #[trigger] self.channels@[i].name@
                != #[trigger] self.channels@[j].name@ by {
            assert(self.channels@[i].name == old(self).channels@[i].name || i == k);
        }
    }

    /// Records `savepoint` in every channel.
    pub fn savepoint(&mut self, savepoint: usize)
        requires
            old(self).wf(),
        ensures
            final(self).wf(),
            final(self).channels@.len() == old(self).channels@.len(),
            forall|i: int|
                0 <= i < final(self).channels@.len() ==> #[trigger] final(self).channels@[i].savepoints@
                    == old(self).channels@[i].savepoints@.insert(
                    savepoint,
                    old(self).channels@[i].buffer@.len() as usize,
                ) && final(self).channels@[i].buffer == old(self).channels@[i].buffer,
    {
        let mut i: usize = 0;
        while i < self.channels.len()
            invariant
                0 <= i <= self.channels@.len() == old(self).channels@.len(),
                self.wf(),
                forall|j: int| 0 <= j < self.channels@.len() ==> #[trigger] self.channels@[j].name == old(self).channels@[j].name,
                forall|j: int|
                    0 <= j < i ==> #[trigger] self.channels@[j].savepoints@ == old(
                        self,
                    ).channels@[j].savepoints@.insert(
                        savepoint,
                        old(self).channels@[j].buffer@.len() as usize,
                    ) && self.channels@[j].buffer == old(self).channels@[j].buffer,
                forall|j: int| i <= j < self.channels@.len() ==> #[trigger] self.channels@[j] == old(self).channels@[j],
            decreases self.channels@.len() - i,
        {
            let mut c = self.channels.remove(i);
            c.savepoint(savepoint);
            self.channels.insert(i, c);
            i = i + 1;
        }
    }

    /// Unloads `savepoint` in every channel.
    pub fn unload(&mut self, savepoint: usize)
        requires
            old(self).wf(),
        ensures
            final(self).wf(),
            final(self).channels@.len() == old(self).channels@.len(),
            forall|i: int|
                0 <= i < final(self).channels@.len() ==> #[trigger] final(self).channels@[i].lines_view()
                    == old(self).channels@[i].unloaded(savepoint)
                    && final(self).channels@[i].buffer == old(self).channels@[i].buffer
                    && final(self).channels@[i].name == old(self).channels@[i].name
                    && final(self).channels@[i].savepoints == old(self).channels@[i].savepoints,
    {
        let mut i: usize = 0;
        while i < self.channels.len()
            invariant
                0 <= i <= self.channels@.len() == old(self).channels@.len(),
                self.wf(),
                forall|j: int| 0 <= j < self.channels@.len() ==> #[trigger] self.channels@[j].name == old(self).channels@[j].name,
                forall|j: int|
                    0 <= j < i ==> #[trigger] self.channels@[j].lines_view() == old(
                        self,
                    ).channels@[j].unloaded(savepoint) && self.channels@[j].buffer == old(self).channels@[j].buffer
                        && self.channels@[j].savepoints == old(self).channels@[j].savepoints,
                forall|j: int| i <= j < self.channels@.len() ==> #[trigger] self.channels@[j] == old(self).channels@[j],
            decreases self.channels@.len() - i,
        {
            let mut c = self.channels.remove(i);
            c.unload(savepoint);
            self.channels.insert(i, c);
            i = i + 1;
        }
    }
}

} // verus!
