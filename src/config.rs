use vstd::prelude::*;
use crate::error::ConfigError;
use crate::number::{decimal_u64, parse_u64};
use crate::table::{AssetTable, IntentTable, TimingTable};

verus! {

/// Whether a character has Unicode's White_Space property, the white space
/// that `str::trim` removes.
pub open spec fn is_white_space(c: char) -> bool {
    ('\u{9}' <= c && c <= '\u{d}') || c == ' ' || c == '\u{85}' || c == '\u{a0}' || c
        == '\u{1680}' || ('\u{2000}' <= c && c <= '\u{200a}') || c == '\u{2028}' || c
        == '\u{2029}' || c == '\u{202f}' || c == '\u{205f}' || c == '\u{3000}'
}

/// A text without its leading white space.
pub open spec fn trim_start(s: Seq<char>) -> Seq<char>
    decreases s.len(),
{
    if s.len() > 0 && is_white_space(s[0]) {
        trim_start(s.drop_first())
    } else {
        s
    }
}

/// A text without its trailing white space.
pub open spec fn trim_end(s: Seq<char>) -> Seq<char>
    decreases s.len(),
{
    if s.len() > 0 && is_white_space(s.last()) {
        trim_end(s.drop_last())
    } else {
        s
    }
}

/// A text without its leading and trailing white space.
pub open spec fn trimmed(s: Seq<char>) -> Seq<char> {
    trim_end(trim_start(s))
}

/// Relies on str::trim: the text without its leading and trailing
/// characters of Unicode's White_Space property.
#[verifier::external_body]
fn trim_text(s: &str) -> (r: &str)
    ensures
        r@ == trimmed(s@),
{
    s.trim()
}

/// The texts of a list of lines.
pub open spec fn texts(lines: Seq<String>) -> Seq<Seq<char>> {
    lines.map_values(|l: String| l@)
}

/// Whether a line opens a new intent: it starts with `[`.
pub open spec fn is_header(line: Seq<char>) -> bool {
    line.len() > 0 && line[0] == '['
}

/// A text with every `[` and `]` taken out.
pub open spec fn unbracketed(s: Seq<char>) -> Seq<char>
    decreases s.len(),
{
    if s.len() == 0 {
        s
    } else if s.last() == '[' || s.last() == ']' {
        unbracketed(s.drop_last())
    } else {
        unbracketed(s.drop_last()).push(s.last())
    }
}

/// The intent name of a header line: no brackets, no surrounding space.
pub open spec fn header_name(line: Seq<char>) -> Seq<char> {
    trimmed(unbracketed(line))
}

fn strip_brackets(s: &str) -> (r: String)
    ensures
        r@ == unbracketed(s@),
{
    let n = s.unicode_len();
    let mut out = String::new();
    let mut i: usize = 0;
    while i < n
        invariant
            n == s@.len(),
            i <= n,
            out@ == unbracketed(s@.subrange(0, i as int)),
        decreases n - i,
    {
        let c = s.get_char(i);
        assert(s@.subrange(0, i + 1).drop_last() =~= s@.subrange(0, i as int));
        if c != '[' && c != ']' {
            out.append(s.substring_char(i, i + 1));
            assert(out@ =~= unbracketed(s@.subrange(0, i + 1)));
        }
        i = i + 1;
    }
    assert(s@.subrange(0, n as int) =~= s@);
    out
}

fn header_of(line: &str) -> (r: String)
    ensures
        r@ == header_name(line@),
{
    let bare = strip_brackets(line);
    String::from_str(trim_text(bare.as_str()))
}

fn starts_header(line: &str) -> (r: bool)
    ensures
        r == is_header(line@),
{
    line.unicode_len() > 0 && line.get_char(0) == '['
}

/// Where the reading of an asset file stands after some lines: the intent
/// being read, its paths so far, and the intents already closed.
pub struct AssetParse {
    pub entry: Seq<char>,
    pub files: Seq<Seq<char>>,
    pub table: Map<Seq<char>, Seq<Seq<char>>>,
}

/// One line of an asset file; `None` for a path above every header.
pub open spec fn asset_line(p: AssetParse, line: Seq<char>) -> Option<AssetParse> {
    if line.len() == 0 {
        Some(p)
    } else if is_header(line) {
        Some(
            AssetParse {
                entry: header_name(line),
                files: Seq::empty(),
                table: if p.entry.len() > 0 {
                    p.table.insert(p.entry, p.files)
                } else {
                    p.table
                },
            },
        )
    } else if p.entry.len() == 0 {
        None
    } else {
        Some(AssetParse { files: p.files.push(line), ..p })
    }
}

/// The reading of the first lines of an asset file.
pub open spec fn assets_read(lines: Seq<Seq<char>>) -> Option<AssetParse>
    decreases lines.len(),
{
    if lines.len() == 0 {
        Some(AssetParse { entry: Seq::empty(), files: Seq::empty(), table: Map::empty() })
    } else {
        match assets_read(lines.drop_last()) {
            Some(p) => asset_line(p, lines.last()),
            None => None,
        }
    }
}

/// The table of a well-formed asset file: the last intent opened is closed
/// too.
pub open spec fn parsed_assets(lines: Seq<Seq<char>>) -> Map<Seq<char>, Seq<Seq<char>>> {
    let p = assets_read(lines)->0;
    if p.entry.len() > 0 {
        p.table.insert(p.entry, p.files)
    } else {
        p.table
    }
}

/// The paths of an asset table, as texts.
pub open spec fn paths_view(t: Map<Seq<char>, Vec<String>>) -> Map<Seq<char>, Seq<Seq<char>>> {
    Map::new(|k: Seq<char>| t.contains_key(k), |k: Seq<char>| texts(t[k]@))
}

proof fn lemma_paths_view_insert(t: Map<Seq<char>, Vec<String>>, k: Seq<char>, v: Vec<String>)
    ensures
        paths_view(t.insert(k, v)) == paths_view(t).insert(k, texts(v@)),
{
    assert(paths_view(t.insert(k, v)) =~= paths_view(t).insert(k, texts(v@)));
}

proof fn lemma_read_prefix(lines: Seq<Seq<char>>, i: int)
    requires
        0 <= i <= lines.len(),
        assets_read(lines.take(i)) is None,
    ensures
        assets_read(lines) is None,
    decreases lines.len(),
{
    if i < lines.len() {
        assert(lines.drop_last().take(i) =~= lines.take(i));
        lemma_read_prefix(lines.drop_last(), i);
    } else {
        assert(lines.take(i) =~= lines);
    }
}

/// Checks that an asset file is well formed: no path stands above every
/// header. The fault names the index of the first such line.
pub fn check_assets(lines: &Vec<String>) -> (r: Result<(), ConfigError>)
    ensures
        r is Ok <==> assets_read(texts(lines@)) is Some,
        r is Err ==> (r matches Err(ConfigError::EntryWithoutIntent(i)) && i < lines@.len()
            && assets_read(texts(lines@).take(i as int)) is Some && assets_read(
            texts(lines@).take(i + 1),
        ) is None),
{
    let ghost all = texts(lines@);
    let mut entry = String::new();
    let mut i: usize = 0;
    assert(all.take(0) =~= Seq::<Seq<char>>::empty());
    while i < lines.len()
        invariant
            all == texts(lines@),
            i <= lines@.len(),
            assets_read(all.take(i as int)) is Some,
            assets_read(all.take(i as int))->0.entry == entry@,
        decreases lines@.len() - i,
    {
        let line = &lines[i];
        assert(all.take(i + 1).drop_last() =~= all.take(i as int));
        assert(all.take(i + 1).last() == line@);
        if line.as_str().unicode_len() > 0 {
            if starts_header(line.as_str()) {
                entry = header_of(line.as_str());
            } else if entry.as_str().unicode_len() == 0 {
                proof {
                    lemma_read_prefix(all, i + 1);
                }
                return Err(ConfigError::EntryWithoutIntent(i));
            }
        }
        i = i + 1;
    }
    assert(all.take(i as int) =~= all);
    Ok(())
}

/// Reads a well-formed asset file (faces or audio) from its lines:
/// `[intent]` opens an intent, every other non-blank line is one of its
/// paths, blank lines are skipped. An intent opened twice keeps its last
/// list.
pub fn parse_assets(lines: &Vec<String>) -> (r: AssetTable)
    requires
        assets_read(texts(lines@)) is Some,
    ensures
        paths_view(r@) == parsed_assets(texts(lines@)),
{
    let ghost all = texts(lines@);
    let mut table: AssetTable = IntentTable::new();
    let mut files: Vec<String> = Vec::new();
    let mut entry = String::new();
    let mut i: usize = 0;
    assert(all.take(0) =~= Seq::<Seq<char>>::empty());
    assert(texts(files@) =~= Seq::<Seq<char>>::empty());
    assert(paths_view(table@) =~= Map::<Seq<char>, Seq<Seq<char>>>::empty());
    while i < lines.len()
        invariant
            all == texts(lines@),
            assets_read(all) is Some,
            i <= lines@.len(),
            assets_read(all.take(i as int)) == Some(
                AssetParse { entry: entry@, files: texts(files@), table: paths_view(table@) },
            ),
        decreases lines@.len() - i,
    {
        let line = &lines[i];
        let ghost before = AssetParse { entry: entry@, files: texts(files@), table: paths_view(table@) };
        assert(all.take(i + 1).drop_last() =~= all.take(i as int));
        assert(all.take(i + 1).last() == line@);
        if line.as_str().unicode_len() > 0 {
            if starts_header(line.as_str()) {
                if entry.as_str().unicode_len() > 0 {
                    let closed = files;
                    proof {
                        lemma_paths_view_insert(table@, entry@, closed);
                    }
                    table.insert(entry, closed);
                }
                files = Vec::new();
                entry = header_of(line.as_str());
                assert(texts(files@) =~= Seq::<Seq<char>>::empty());
            } else {
                proof {
                    if entry@.len() == 0 {
                        lemma_read_prefix(all, i + 1);
                    }
                }
                files.push(line.clone());
                assert(texts(files@) =~= before.files.push(line@));
            }
        }
        i = i + 1;
    }
    assert(all.take(i as int) =~= all);
    if entry.as_str().unicode_len() > 0 {
        proof {
            lemma_paths_view_insert(table@, entry@, files);
        }
        table.insert(entry, files);
    }
    table
}

/// Where the reading of a timing file stands after some lines: the intent
/// being read and the limits set so far.
pub struct TimingParse {
    pub entry: Seq<char>,
    pub table: Map<Seq<char>, u64>,
}

/// One line of a timing file; `None` for a limit above every header or one
/// that is not a number.
pub open spec fn timing_line(p: TimingParse, line: Seq<char>) -> Option<TimingParse> {
    if line.len() == 0 {
        Some(p)
    } else if is_header(line) {
        Some(TimingParse { entry: header_name(line), ..p })
    } else if p.entry.len() == 0 {
        None
    } else {
        match decimal_u64(line) {
            Some(v) => Some(TimingParse { table: p.table.insert(p.entry, v), ..p }),
            None => None,
        }
    }
}

/// The reading of the first lines of a timing file.
pub open spec fn timings_read(lines: Seq<Seq<char>>) -> Option<TimingParse>
    decreases lines.len(),
{
    if lines.len() == 0 {
        Some(TimingParse { entry: Seq::empty(), table: Map::empty() })
    } else {
        match timings_read(lines.drop_last()) {
            Some(p) => timing_line(p, lines.last()),
            None => None,
        }
    }
}

/// The table of a well-formed timing file: each intent with the last limit
/// read under one of its headers; an intent with no limit line has none.
pub open spec fn parsed_timings(lines: Seq<Seq<char>>) -> Map<Seq<char>, u64> {
    timings_read(lines)->0.table
}

proof fn lemma_timing_prefix(lines: Seq<Seq<char>>, i: int)
    requires
        0 <= i <= lines.len(),
        timings_read(lines.take(i)) is None,
    ensures
        timings_read(lines) is None,
    decreases lines.len(),
{
    if i < lines.len() {
        assert(lines.drop_last().take(i) =~= lines.take(i));
        lemma_timing_prefix(lines.drop_last(), i);
    } else {
        assert(lines.take(i) =~= lines);
    }
}

/// Checks that a timing file is well formed: every limit stands below a
/// header and reads as an unsigned number. The fault names the index of
/// the first line that breaks this.
pub fn check_timings(lines: &Vec<String>) -> (r: Result<(), ConfigError>)
    ensures
        r is Ok <==> timings_read(texts(lines@)) is Some,
        r is Err ==> exists|i: usize|
            {
                &&& i < lines@.len()
                &&& timings_read(texts(lines@).take(i as int)) is Some
                &&& timings_read(texts(lines@).take(i + 1)) is None
                &&& if timings_read(texts(lines@).take(i as int))->0.entry.len() == 0 {
                    r matches Err(ConfigError::EntryWithoutIntent(j)) && j == i
                } else {
                    r matches Err(ConfigError::BadTiming(j)) && j == i
                }
            },
{
    let ghost all = texts(lines@);
    let mut entry = String::new();
    let mut i: usize = 0;
    assert(all.take(0) =~= Seq::<Seq<char>>::empty());
    while i < lines.len()
        invariant
            all == texts(lines@),
            i <= lines@.len(),
            timings_read(all.take(i as int)) is Some,
            timings_read(all.take(i as int))->0.entry == entry@,
        decreases lines@.len() - i,
    {
        let line = &lines[i];
        assert(all.take(i + 1).drop_last() =~= all.take(i as int));
        assert(all.take(i + 1).last() == line@);
        if line.as_str().unicode_len() > 0 {
            if starts_header(line.as_str()) {
                entry = header_of(line.as_str());
            } else if entry.as_str().unicode_len() == 0 {
                proof {
                    lemma_timing_prefix(all, i + 1);
                }
                return Err(ConfigError::EntryWithoutIntent(i));
            } else if parse_u64(line.as_str()).is_none() {
                proof {
                    lemma_timing_prefix(all, i + 1);
                }
                return Err(ConfigError::BadTiming(i));
            }
        }
        i = i + 1;
    }
    assert(all.take(i as int) =~= all);
    Ok(())
}

/// Reads a well-formed timing file from its lines: `[intent]` opens an
/// intent, a line below it holds its limit in milliseconds (the last such
/// line counts), blank lines are skipped.
pub fn parse_timings(lines: &Vec<String>) -> (r: TimingTable)
    requires
        timings_read(texts(lines@)) is Some,
    ensures
        r@ == parsed_timings(texts(lines@)),
{
    let ghost all = texts(lines@);
    let mut table: TimingTable = IntentTable::new();
    let mut entry = String::new();
    let mut i: usize = 0;
    assert(all.take(0) =~= Seq::<Seq<char>>::empty());
    while i < lines.len()
        invariant
            all == texts(lines@),
            timings_read(all) is Some,
            i <= lines@.len(),
            timings_read(all.take(i as int)) is Some,
            timings_read(all.take(i as int))->0.entry == entry@,
            timings_read(all.take(i as int))->0.table == table@,
        decreases lines@.len() - i,
    {
        let line = &lines[i];
        assert(all.take(i + 1).drop_last() =~= all.take(i as int));
        assert(all.take(i + 1).last() == line@);
        proof {
            if timings_read(all.take(i + 1)) is None {
                lemma_timing_prefix(all, i + 1);
            }
        }
        if line.as_str().unicode_len() > 0 {
            if starts_header(line.as_str()) {
                entry = header_of(line.as_str());
            } else {
                match parse_u64(line.as_str()) {
                    Some(v) => {
                        table.insert(entry.clone(), v);
                    },
                    None => {},
                }
            }
        }
        i = i + 1;
    }
    assert(all.take(i as int) =~= all);
    table
}

} // verus!
