use crate::paths::{lower_of, to_lowercase};
use vstd::prelude::*;
use vstd::string::StrSliceExecFns;
use vstd::string::StringExecFns;

verus! {

/// An extension as the scan compares it: lower-cased, with one leading dot.
pub open spec fn dotted(s: Seq<char>) -> Seq<char> {
    if s.len() > 0 && s[0] == '.' {
        s
    } else {
        "."@ + s
    }
}

/// Lower-cases an extension and gives it a leading dot when it has none.
pub fn normalize_extension(ext: &str) -> (r: String)
    ensures
        r@ == dotted(lower_of(ext@)),
{
    let lower = to_lowercase(ext);
    let n = lower.as_str().unicode_len();
    if n > 0 && lower.as_str().get_char(0) == '.' {
        lower
    } else {
        let mut out = String::from_str(".");
        out.append(lower.as_str());
        out
    }
}

/// Membership of a string in a list, by content.
pub fn holds(v: &Vec<String>, s: &str) -> (r: bool)
    ensures
        r == crate::media::views_of(v@).contains(s@),
{
    let t = String::from_str(s);
    let mut i: usize = 0;
    while i < v.len()
        invariant
            i <= v.len(),
            t@ == s@,
            forall|k: int| 0 <= k < i ==> v@[k]@ != s@,
        decreases v.len() - i,
    {
        if v[i] == t {
            assert(crate::media::views_of(v@)[i as int] == s@);
            return true;
        }
        i = i + 1;
    }
    proof {
        if crate::media::views_of(v@).contains(s@) {
            let k = choose|k: int| 0 <= k < v@.len() && crate::media::views_of(v@)[k] == s@;
            assert(v@[k]@ == s@);
        }
    }
    false
}

/// How the scan treats one file.
#[derive(Clone, Copy, Debug, PartialEq, Eq, Structural)]
pub enum EntryClass {
    /// Its name is on the ignore list.
    IgnoredName,
    /// Its extension is on the ignore list.
    IgnoredExt,
    /// Its extension marks it as text: it is read into the batch.
    Text,
    /// Anything else.
    NotText,
}

/// The normalised lists a scan matches file names and extensions against.
pub struct ScanRules {
    text_exts: Vec<String>,
    ignore_exts: Vec<String>,
    ignore_names: Vec<String>,
}

impl ScanRules {
    pub closed spec fn text_ext_set(&self) -> Seq<Seq<char>> {
        crate::media::views_of(self.text_exts@)
    }

    pub closed spec fn ignore_ext_set(&self) -> Seq<Seq<char>> {
        crate::media::views_of(self.ignore_exts@)
    }

    pub closed spec fn ignore_name_set(&self) -> Seq<Seq<char>> {
        crate::media::views_of(self.ignore_names@)
    }

    /// Normalises the extension lists (lower case, leading dot) and the
    /// ignored names (lower case, empty ones dropped).
    pub fn new(text_exts: &Vec<String>, ignore_exts: &Vec<String>, ignore_files: &Vec<String>) -> (r:
        ScanRules)
        ensures
            forall|e: Seq<char>|
                r.text_ext_set().contains(e) <==> exists|i: int|
                    0 <= i < text_exts@.len() && e == dotted(lower_of(#[trigger] text_exts@[i]@)),
            forall|e: Seq<char>|
                r.ignore_ext_set().contains(e) <==> exists|i: int|
                    0 <= i < ignore_exts@.len() && e == dotted(lower_of(#[trigger] ignore_exts@[i]@)),
            forall|n: Seq<char>|
                r.ignore_name_set().contains(n) <==> n.len() > 0 && exists|i: int|
                    0 <= i < ignore_files@.len() && n == lower_of(#[trigger] ignore_files@[i]@),
    {
        ScanRules {
            text_exts: normalized_all(text_exts),
            ignore_exts: normalized_all(ignore_exts),
            ignore_names: lowered_names(ignore_files),
        }
    }

    pub open spec fn classify_spec(&self, name: Option<Seq<char>>, ext: Option<Seq<char>>) -> EntryClass {
        if name is Some && self.ignore_name_set().contains(name->0) {
            EntryClass::IgnoredName
        } else if ext is Some && self.ignore_ext_set().contains(ext->0) {
            EntryClass::IgnoredExt
        } else if ext is Some && self.text_ext_set().contains(ext->0) {
            EntryClass::Text
        } else {
            EntryClass::NotText
        }
    }

    /// Classifies a file by its name and its extension (without the dot),
    /// both compared in lower case.
    pub fn classify(&self, file_name: Option<&str>, extension: Option<&str>) -> (r: EntryClass)
        ensures
            r == self.classify_spec(
                match file_name {
                    Some(n) => Some(lower_of(n@)),
                    None => None,
                },
                match extension {
                    Some(e) => Some("."@ + lower_of(e@)),
                    None => None,
                },
            ),
    {
        match file_name {
            Some(n) => {
                let lower = to_lowercase(n);
                if holds(&self.ignore_names, lower.as_str()) {
                    return EntryClass::IgnoredName;
                }
            },
            None => {},
        }
        match extension {
            Some(e) => {
                let mut dotted_ext = String::from_str(".");
                let lower = to_lowercase(e);
                dotted_ext.append(lower.as_str());
                if holds(&self.ignore_exts, dotted_ext.as_str()) {
                    EntryClass::IgnoredExt
                } else if holds(&self.text_exts, dotted_ext.as_str()) {
                    EntryClass::Text
                } else {
                    EntryClass::NotText
                }
            },
            None => EntryClass::NotText,
        }
    }
}

fn normalized_all(v: &Vec<String>) -> (r: Vec<String>)
    ensures
        forall|e: Seq<char>|
            crate::media::views_of(r@).contains(e) <==> exists|i: int|
                0 <= i < v@.len() && e == dotted(lower_of(#[trigger] v@[i]@)),
{
    let mut out: Vec<String> = Vec::new();
    let mut i: usize = 0;
    while i < v.len()
        invariant
            i <= v.len(),
            out@.len() == i,
            forall|k: int| 0 <= k < i ==> #[trigger] out@[k]@ == dotted(lower_of(v@[k]@)),
        decreases v.len() - i,
    {
        out.push(normalize_extension(v[i].as_str()));
        i = i + 1;
    }
    proof {
        assert forall|e: Seq<char>|
            crate::media::views_of(out@).contains(e) <==> exists|i: int|
                0 <= i < v@.len() && e == dotted(lower_of(#[trigger] v@[i]@)) by {
            if crate::media::views_of(out@).contains(e) {
                let k = choose|k: int| 0 <= k < out@.len() && crate::media::views_of(out@)[k] == e;
                assert(e == dotted(lower_of(v@[k]@)));
            }
            if exists|i: int| 0 <= i < v@.len() && e == dotted(lower_of(#[trigger] v@[i]@)) {
                let k = choose|k: int| 0 <= k < v@.len() && e == dotted(lower_of(#[trigger] v@[k]@));
                assert(crate::media::views_of(out@)[k] == e);
            }
        }
    }
    out
}

fn lowered_names(v: &Vec<String>) -> (r: Vec<String>)
    ensures
        forall|n: Seq<char>|
            crate::media::views_of(r@).contains(n) <==> n.len() > 0 && exists|i: int|
                0 <= i < v@.len() && n == lower_of(#[trigger] v@[i]@),
{
    let mut out: Vec<String> = Vec::new();
    let mut i: usize = 0;
    while i < v.len()
        invariant
            i <= v.len(),
            forall|n: Seq<char>|
                crate::media::views_of(out@).contains(n) <==> n.len() > 0 && exists|k: int|
                    0 <= k < i && n == lower_of(#[trigger] v@[k]@),
        decreases v.len() - i,
    {
        let lower = to_lowercase(v[i].as_str());
        let ghost before = out@;
        if lower.as_str().unicode_len() > 0 {
            out.push(lower);
        }
        proof {
            assert forall|n: Seq<char>|
                crate::media::views_of(out@).contains(n) <==> n.len() > 0 && exists|k: int|
                    0 <= k < i + 1 && n == lower_of(#[trigger] v@[k]@) by {
                if crate::media::views_of(out@).contains(n) {
                    let j = choose|j: int|
                        0 <= j < out@.len() && crate::media::views_of(out@)[j] == n;
                    if j < before.len() {
                        assert(crate::media::views_of(before)[j] == n);
                        assert(crate::media::views_of(before).contains(n));
                        let k = choose|k: int| 0 <= k < i && n == lower_of(#[trigger] v@[k]@);
                        assert(0 <= k < i + 1 && n == lower_of(v@[k]@));
                    } else {
                        assert(n == lower_of(v@[i as int]@));
                        assert(n.len() > 0);
                    }
                }
                if n.len() > 0 && exists|k: int| 0 <= k < i + 1 && n == lower_of(#[trigger] v@[k]@) {
                    let k = choose|k: int| 0 <= k < i + 1 && n == lower_of(#[trigger] v@[k]@);
                    if k < i {
                        assert(crate::media::views_of(before).contains(n));
                        let j = choose|j: int|
                            0 <= j < before.len() && crate::media::views_of(before)[j] == n;
                        assert(crate::media::views_of(out@)[j] == n);
                    } else {
                        assert(crate::media::views_of(out@)[out@.len() - 1] == n);
                    }
                }
            }
        }
        i = i + 1;
    }
    out
}

/// Counters of a scan.
#[derive(Clone, Copy, Debug, PartialEq, Eq, Structural)]
pub struct ScanProgress {
    /// Index of the entry after the last one visited.
    pub next_cursor: usize,
    /// Files seen from the cursor on.
    pub scanned: usize,
    /// Files passed over: ignored by name or extension, or not text.
    pub skipped: usize,
}

/// What the walker does after an entry.
#[derive(Clone, Copy, Debug, PartialEq, Eq, Structural)]
pub enum Visit {
    /// Go on to the next entry.
    Next,
    /// Read this text file and hand the result to `add_read`.
    Read,
    /// The batch is full: stop here.
    Stop,
}

/// One page of a directory walk: entries before the cursor are passed over,
/// and text files are gathered until the batch holds `batch_size` of them.
pub struct TextBatch {
    cursor: usize,
    batch_size: usize,
    progress: ScanProgress,
    items: Vec<(String, String)>,
}

impl TextBatch {
    pub closed spec fn cursor(&self) -> usize {
        self.cursor
    }

    pub closed spec fn batch_size(&self) -> usize {
        self.batch_size
    }

    pub closed spec fn progress(&self) -> ScanProgress {
        self.progress
    }

    pub closed spec fn items(&self) -> Seq<(Seq<char>, Seq<char>)> {
        crate::media::pair_views_of(self.items@)
    }

    pub open spec fn wf(&self) -> bool {
        &&& self.cursor() <= self.progress().next_cursor
        &&& self.progress().skipped <= self.progress().scanned
        &&& self.progress().scanned <= self.progress().next_cursor - self.cursor()
    }

    pub open spec fn is_full(&self) -> bool {
        self.items().len() >= self.batch_size()
    }

    pub fn new(cursor: usize, batch_size: usize) -> (r: TextBatch)
        ensures
            r.wf(),
            r.cursor() == cursor,
            r.batch_size() == batch_size,
            r.progress() == (ScanProgress { next_cursor: cursor, scanned: 0, skipped: 0 }),
            r.items() == Seq::<(Seq<char>, Seq<char>)>::empty(),
    {
        let r = TextBatch {
            cursor,
            batch_size,
            progress: ScanProgress { next_cursor: cursor, scanned: 0, skipped: 0 },
            items: Vec::new(),
        };
        assert(r.items() =~= Seq::<(Seq<char>, Seq<char>)>::empty());
        r
    }

    /// Records entry number `idx` of the walk. Entries come in increasing
    /// order; those before the cursor change nothing. A file ignored by name
    /// or extension never ends the page, even when the batch is already
    /// full: only other entries check the size.
    pub fn visit(&mut self, idx: usize, is_file: bool, class: EntryClass) -> (r: Visit)
        requires
            old(self).wf(),
            idx < usize::MAX,
            idx >= old(self).cursor() ==> idx >= old(self).progress().next_cursor,
        ensures
            final(self).wf(),
            final(self).cursor() == old(self).cursor(),
            final(self).batch_size() == old(self).batch_size(),
            final(self).items() == old(self).items(),
            idx < old(self).cursor() ==> r == Visit::Next && final(self).progress() == old(
                self,
            ).progress(),
            idx >= old(self).cursor() ==> {
                let p = old(self).progress();
                let skip = is_file && class != EntryClass::Text;
                &&& final(self).progress() == (ScanProgress {
                    next_cursor: (idx + 1) as usize,
                    scanned: if is_file {
                        (p.scanned + 1) as usize
                    } else {
                        p.scanned
                    },
                    skipped: if skip {
                        (p.skipped + 1) as usize
                    } else {
                        p.skipped
                    },
                })
                &&& r == if is_file && class == EntryClass::Text {
                    Visit::Read
                } else if is_file && (class == EntryClass::IgnoredName || class
                    == EntryClass::IgnoredExt) {
                    Visit::Next
                } else if old(self).is_full() {
                    Visit::Stop
                } else {
                    Visit::Next
                }
            },
    {
        if idx < self.cursor {
            return Visit::Next;
        }
        self.progress.next_cursor = idx + 1;
        if is_file {
            self.progress.scanned = self.progress.scanned + 1;
            match class {
                EntryClass::Text => {
                    return Visit::Read;
                },
                EntryClass::IgnoredName | EntryClass::IgnoredExt => {
                    self.progress.skipped = self.progress.skipped + 1;
                    return Visit::Next;
                },
                EntryClass::NotText => {
                    self.progress.skipped = self.progress.skipped + 1;
                },
            }
        }
        if self.items.len() >= self.batch_size {
            Visit::Stop
        } else {
            Visit::Next
        }
    }

    /// Takes the outcome of reading the text file just visited: its path and
    /// contents when it could be read. Reports whether the batch is now full.
    pub fn add_read(&mut self, read: Option<(String, String)>) -> (full: bool)
        requires
            old(self).wf(),
        ensures
            final(self).wf(),
            final(self).cursor() == old(self).cursor(),
            final(self).batch_size() == old(self).batch_size(),
            final(self).progress() == old(self).progress(),
            final(self).items() == match read {
                Some(item) => old(self).items().push((item.0@, item.1@)),
                None => old(self).items(),
            },
            full == final(self).is_full(),
    {
        match read {
            Some(item) => {
                let ghost v = (item.0@, item.1@);
                self.items.push(item);
                assert(self.items() =~= old(self).items().push(v));
            },
            None => {},
        }
        self.items.len() >= self.batch_size
    }

    /// The page: gathered files, the cursor for the next page, whether the
    /// walk was exhausted, and the two counters.
    pub fn into_parts(self, exhausted: bool) -> (r: (Vec<(String, String)>, usize, bool, usize, usize))
        ensures
            crate::media::pair_views_of(r.0@) == self.items(),
            r.1 == self.progress().next_cursor,
            r.2 == exhausted,
            r.3 == self.progress().scanned,
            r.4 == self.progress().skipped,
    {
        (self.items, self.progress.next_cursor, exhausted, self.progress.scanned, self.progress.skipped)
    }
}

} // verus!
