//! The settings file: a section of `name = value` variables, the marker
//! `[RssLinks]`, and one `heading, link, blacklist` record per line.

use crate::dirs::{config_dir, path_in};
use crate::number::{decimal_spec, parse_decimal};
use crate::table::{
    append_item, append_spec, distinct, holds, key_at, lemma_place, lists, place, put, strings,
    Table,
};
use crate::text::{
    collapse, collapse_spec, from_chars, nonempty, nonempty_spec, split, split_in_two, split_spec,
    text_of, to_chars, two_parts, views, Separator,
};
use directories::ProjectDirs;
use vstd::prelude::*;
use vstd::string::StringExecFns;

verus! {

/// The variables of the settings file.
#[derive(Debug)]
pub struct Vars {
    /// Where the templates are.
    pub templateloc: String,
    /// The directory to archive into; without one nothing is archived.
    pub archive: Option<String>,
    /// The user agent to fetch with, for sites that insist on one.
    pub ua: Option<String>,
    /// How many fetches run at a time.
    pub parallel: u16,
    /// How many pages are cached.
    pub cache: u16,
}

/// The variables as plain values.
pub struct VarsView {
    pub templateloc: Seq<char>,
    pub archive: Option<Seq<char>>,
    pub ua: Option<Seq<char>>,
    pub parallel: u16,
    pub cache: u16,
}

impl View for Vars {
    type V = VarsView;

    open spec fn view(&self) -> VarsView {
        VarsView {
            templateloc: self.templateloc@,
            archive: text_of(self.archive),
            ua: text_of(self.ua),
            parallel: self.parallel,
            cache: self.cache,
        }
    }
}

/// Why the variables section was refused. Each variant carries the index of
/// the offending line, counted from zero.
#[derive(Clone, Copy, Debug, PartialEq, Eq, Structural)]
pub enum VarsError {
    /// The line does not have exactly a name and a value around its `=`.
    Malformed(usize),
    /// The value of `parallel` is not a number from 0 to 65535.
    Parallel(usize),
    /// The value of `cache` is not a number from 0 to 65535.
    Cache(usize),
    /// The name is none of the known variables.
    Unknown(usize),
    /// The platform offers no directory to look for the templates in.
    NoDirectory,
}

/// The variables before any line is read.
pub open spec fn default_vars(templateloc: Seq<char>) -> VarsView {
    VarsView { templateloc, archive: None, ua: None, parallel: 5, cache: 50 }
}

/// The text trimmed, with every run of whitespace collapsed into one space.
pub open spec fn clean_spec(s: Seq<char>) -> Seq<char> {
    collapse_spec(s, Separator::Whitespace)
}

/// A value: cleaned, then without its double quotes.
pub open spec fn value_spec(s: Seq<char>) -> Seq<char> {
    collapse_spec(clean_spec(s), Separator::Char('"'))
}

/// The non-empty pieces of a line around its `=` signs.
pub open spec fn fields_spec(line: Seq<char>) -> Seq<Seq<char>> {
    nonempty_spec(split_spec(line, Separator::Char('=')))
}

/// The variables after one more line, which is line number `at`.
pub open spec fn apply_line(v: VarsView, line: Seq<char>, at: usize) -> Result<
    VarsView,
    VarsError,
> {
    let fields = fields_spec(line);
    if fields.len() == 0 {
        Ok(v)
    } else if fields.len() != 2 {
        Err(VarsError::Malformed(at))
    } else {
        let name = clean_spec(fields[0]);
        if name == "templateloc"@ {
            Ok(VarsView { templateloc: value_spec(fields[1]), ..v })
        } else if name == "ua"@ {
            Ok(VarsView { ua: Some(value_spec(fields[1])), ..v })
        } else if name == "archive"@ {
            Ok(VarsView { archive: Some(value_spec(fields[1])), ..v })
        } else if name == "parallel"@ {
            match decimal_spec(clean_spec(fields[1]), 0xffff) {
                Some(n) => Ok(VarsView { parallel: n as u16, ..v }),
                None => Err(VarsError::Parallel(at)),
            }
        } else if name == "cache"@ {
            match decimal_spec(clean_spec(fields[1]), 0xffff) {
                Some(n) => Ok(VarsView { cache: n as u16, ..v }),
                None => Err(VarsError::Cache(at)),
            }
        } else {
            Err(VarsError::Unknown(at))
        }
    }
}

/// The variables after the given lines, read in order up to the first line
/// that is refused.
pub open spec fn apply_lines(v: VarsView, lines: Seq<Seq<char>>) -> Result<VarsView, VarsError>
    decreases lines.len(),
{
    if lines.len() == 0 {
        Ok(v)
    } else {
        match apply_lines(v, lines.drop_last()) {
            Ok(w) => apply_line(w, lines.last(), (lines.len() - 1) as usize),
            Err(e) => Err(e),
        }
    }
}

/// What `Vars::parse` makes of a variables section.
pub open spec fn vars_spec(s: Seq<char>, templateloc: Seq<char>) -> Result<VarsView, VarsError> {
    apply_lines(default_vars(templateloc), split_spec(s, Separator::Char('\n')))
}

/// Trims a text and collapses its runs of whitespace.
pub fn clean(s: &Vec<char>) -> (r: Vec<char>)
    ensures
        r@ == clean_spec(s@),
{
    collapse(s, Separator::Whitespace)
}

/// Cleans a value and takes its double quotes away.
pub fn value(s: &Vec<char>) -> (r: String)
    ensures
        r@ == value_spec(s@),
{
    let cleaned = clean(s);
    let bare = collapse(&cleaned, Separator::Char('"'));
    from_chars(&bare)
}

/// Reads a number from 0 to 65535 out of a value.
pub fn number(s: &Vec<char>) -> (r: Option<u16>)
    ensures
        match r {
            Some(n) => decimal_spec(clean_spec(s@), 0xffff) == Some(n as nat),
            None => decimal_spec(clean_spec(s@), 0xffff).is_none(),
        },
{
    let cleaned = clean(s);
    match parse_decimal(&cleaned, 0xffff) {
        Some(n) => Some(n as u16),
        None => None,
    }
}

/// The directory `templates` in the configuration directory that the
/// platform gives to the application, if it gives one.
pub fn default_templateloc() -> Option<String> {
    match ProjectDirs::from("com", "Ishan", "RssReader") {
        Some(dirs) => match config_dir(&dirs) {
            Some(dir) => path_in(dir.as_str(), "templates"),
            None => None,
        },
        None => None,
    }
}

/// The outcome of reading variables as plain values.
pub open spec fn vars_view(r: Result<Vars, VarsError>) -> Result<VarsView, VarsError> {
    match r {
        Ok(vars) => Ok(vars@),
        Err(e) => Err(e),
    }
}

impl Vars {
    /// Reads the variables section `s`, with the platform's template
    /// directory, whatever it is, for a section that names none. Without
    /// such a directory nothing is read.
    pub fn read(s: &str) -> (r: Result<Vars, VarsError>)
        ensures
            r == Err::<Vars, VarsError>(VarsError::NoDirectory) || exists|templateloc: Seq<char>|
                vars_view(r) == vars_spec(s@, templateloc),
    {
        match default_templateloc() {
            Some(templateloc) => {
                let r = Self::parse(s, templateloc);
                proof {
                    assert(vars_view(r) == vars_spec(s@, templateloc@));
                }
                r
            },
            None => Err(VarsError::NoDirectory),
        }
    }

    /// Reads the variables section `s`. `templateloc` is the template
    /// directory to use where the section names none.
    ///
    /// Lines are separated by line feeds. A line with nothing but `=` signs
    /// is skipped; every other line must hold one known name and one value.
    pub fn parse(s: &str, templateloc: String) -> (r: Result<Vars, VarsError>)
        ensures
            match r {
                Ok(vars) => vars_spec(s@, templateloc@) == Ok::<VarsView, VarsError>(vars@),
                Err(e) => vars_spec(s@, templateloc@) == Err::<VarsView, VarsError>(e),
            },
    {
        let chars = to_chars(s);
        let lines = split(&chars, Separator::Char('\n'));
        let ghost all = views(lines@);
        let ghost start = default_vars(templateloc@);
        let mut vars = Vars { templateloc, archive: None, parallel: 5, ua: None, cache: 50 };
        let mut i: usize = 0;
        proof {
            assert(all.take(0) =~= Seq::<Seq<char>>::empty());
        }
        while i < lines.len()
            invariant
                i <= lines.len(),
                all == views(lines@),
                all == split_spec(s@, Separator::Char('\n')),
                vars_spec(s@, templateloc@) == apply_lines(start, all),
                apply_lines(start, all.take(i as int)) == Ok::<VarsView, VarsError>(vars@),
            decreases lines.len() - i,
        {
            proof {
                let t = all.take(i + 1);
                assert(t.drop_last() =~= all.take(i as int));
                assert(t.last() == lines@[i as int]@);
                assert(t.len() - 1 == i);
            }
            let ghost before = vars@;
            let ghost line = lines@[i as int]@;
            let fields = nonempty(split(&lines[i], Separator::Char('=')));
            assert(views(fields@) == fields_spec(line));
            let step: Result<(), VarsError> = if fields.len() == 0 {
                Ok(())
            } else if fields.len() != 2 {
                Err(VarsError::Malformed(i))
            } else {
                assert(fields_spec(line)[0] == fields@[0]@);
                assert(fields_spec(line)[1] == fields@[1]@);
                let name = from_chars(&clean(&fields[0]));
                if name == String::from_str("templateloc") {
                    vars.templateloc = value(&fields[1]);
                    Ok(())
                } else if name == String::from_str("ua") {
                    vars.ua = Some(value(&fields[1]));
                    Ok(())
                } else if name == String::from_str("archive") {
                    vars.archive = Some(value(&fields[1]));
                    Ok(())
                } else if name == String::from_str("parallel") {
                    match number(&fields[1]) {
                        Some(n) => {
                            vars.parallel = n;
                            Ok(())
                        },
                        None => Err(VarsError::Parallel(i)),
                    }
                } else if name == String::from_str("cache") {
                    match number(&fields[1]) {
                        Some(n) => {
                            vars.cache = n;
                            Ok(())
                        },
                        None => Err(VarsError::Cache(i)),
                    }
                } else {
                    Err(VarsError::Unknown(i))
                }
            };
            match step {
                Ok(()) => {
                    assert(apply_line(before, line, i) == Ok::<VarsView, VarsError>(vars@));
                },
                Err(e) => {
                    assert(apply_line(before, line, i) == Err::<VarsView, VarsError>(e));
                    proof {
                        lemma_error_stays(start, all, i + 1);
                    }
                    return Err(e);
                },
            }
            i = i + 1;
        }
        proof {
            assert(all.take(i as int) =~= all);
        }
        Ok(vars)
    }
}

/// Once a line is refused, the lines after it change nothing.
pub proof fn lemma_error_stays(v: VarsView, lines: Seq<Seq<char>>, k: int)
    requires
        0 <= k <= lines.len(),
        apply_lines(v, lines.take(k)).is_err(),
    ensures
        apply_lines(v, lines) == apply_lines(v, lines.take(k)),
    decreases lines.len(),
{
    if k < lines.len() {
        assert(lines.drop_last().take(k) =~= lines.take(k));
        lemma_error_stays(v, lines.drop_last(), k);
    } else {
        assert(lines.take(k) =~= lines);
    }
}


/// The settings of an instance: its variables, the links under each
/// heading, the blacklist of each link, and a small page cache.
#[derive(Debug)]
pub struct Settings {
    pub vars: Vars,
    cache: Table<String>,
    links: Table<Vec<String>>,
    blacklist: Table<Vec<String>>,
}

/// Why a settings file was refused.
#[derive(Clone, Copy, Debug, PartialEq, Eq, Structural)]
pub enum SettingsError {
    /// The marker `[RssLinks]` is missing or stands there more than once.
    Formatting,
    /// The variables section was refused.
    Vars(VarsError),
    /// The record with this index, counted from zero over the non-empty
    /// lines after the marker, does not have exactly three fields.
    Record(usize),
}

/// Headings with their links, and links with their blacklists, as plain
/// values: names in first-insertion order, each with its list.
pub struct LinksView {
    pub headings: Seq<Seq<char>>,
    pub links: Seq<Seq<Seq<char>>>,
    pub blacklisted: Seq<Seq<char>>,
    pub blacklists: Seq<Seq<Seq<char>>>,
}

/// The settings as plain values.
pub struct SettingsView {
    pub vars: VarsView,
    pub records: LinksView,
    pub cache_keys: Seq<Seq<char>>,
    pub cache_values: Seq<Seq<char>>,
}

/// Each piece cleaned.
pub open spec fn cleaned(pieces: Seq<Seq<char>>) -> Seq<Seq<char>> {
    Seq::new(pieces.len(), |i: int| clean_spec(pieces[i]))
}

/// The fields of a record: the non-empty pieces between commas, cleaned.
pub open spec fn record_spec(line: Seq<char>) -> Seq<Seq<char>> {
    cleaned(nonempty_spec(split_spec(line, Separator::Char(','))))
}

/// The words of a blacklist field.
pub open spec fn blacklist_spec(field: Seq<char>) -> Seq<Seq<char>> {
    nonempty_spec(split_spec(field, Separator::Char(' ')))
}

/// No heading and no link yet.
pub open spec fn no_links() -> LinksView {
    LinksView {
        headings: Seq::empty(),
        links: Seq::empty(),
        blacklisted: Seq::empty(),
        blacklists: Seq::empty(),
    }
}

/// The links after one more record, which is record number `at`: its link
/// is added under its heading, and its blacklist replaces any earlier one
/// of the same link.
pub open spec fn apply_record(v: LinksView, line: Seq<char>, at: usize) -> Result<
    LinksView,
    SettingsError,
> {
    let record = record_spec(line);
    if record.len() != 3 {
        Err(SettingsError::Record(at))
    } else {
        let linked = append_spec(v.headings, v.links, record[0], record[1]);
        let listed = put(v.blacklisted, v.blacklists, record[1], blacklist_spec(record[2]));
        Ok(
            LinksView {
                headings: linked.0,
                links: linked.1,
                blacklisted: listed.0,
                blacklists: listed.1,
            },
        )
    }
}

/// The links after the given records, read in order up to the first record
/// that is refused.
pub open spec fn apply_records(v: LinksView, lines: Seq<Seq<char>>) -> Result<
    LinksView,
    SettingsError,
>
    decreases lines.len(),
{
    if lines.len() == 0 {
        Ok(v)
    } else {
        match apply_records(v, lines.drop_last()) {
            Ok(w) => apply_record(w, lines.last(), (lines.len() - 1) as usize),
            Err(e) => Err(e),
        }
    }
}

/// Once a record is refused, the records after it change nothing.
pub proof fn lemma_record_error_stays(v: LinksView, lines: Seq<Seq<char>>, k: int)
    requires
        0 <= k <= lines.len(),
        apply_records(v, lines.take(k)).is_err(),
    ensures
        apply_records(v, lines) == apply_records(v, lines.take(k)),
    decreases lines.len(),
{
    if k < lines.len() {
        assert(lines.drop_last().take(k) =~= lines.take(k));
        lemma_record_error_stays(v, lines.drop_last(), k);
    } else {
        assert(lines.take(k) =~= lines);
    }
}

/// The record lines of the links section: its non-empty lines.
pub open spec fn record_lines(section: Seq<char>) -> Seq<Seq<char>> {
    nonempty_spec(split_spec(section, Separator::Char('\n')))
}

/// What `Settings::parse` makes of the contents of a settings file.
pub open spec fn settings_spec(contents: Seq<char>, templateloc: Seq<char>) -> Result<
    SettingsView,
    SettingsError,
> {
    match two_parts(contents, "[RssLinks]"@) {
        None => Err(SettingsError::Formatting),
        Some((head, rest)) => match vars_spec(head, templateloc) {
            Err(e) => Err(SettingsError::Vars(e)),
            Ok(vars) => match apply_records(no_links(), record_lines(rest)) {
                Err(e) => Err(e),
                Ok(records) => Ok(
                    SettingsView {
                        vars,
                        records,
                        cache_keys: Seq::empty(),
                        cache_values: Seq::empty(),
                    },
                ),
            },
        },
    }
}

/// All the lists written one after another.
pub open spec fn concat_spec(all: Seq<Seq<Seq<char>>>) -> Seq<Seq<char>>
    decreases all.len(),
{
    if all.len() == 0 {
        Seq::empty()
    } else {
        concat_spec(all.drop_last()) + all.last()
    }
}

/// How many of the oldest entries leave a cache of `len` entries that is
/// meant to hold `size`, to make room for one more.
pub open spec fn overflow(len: nat, size: nat) -> nat {
    if len >= size {
        (len - size + 1) as nat
    } else {
        0
    }
}

/// The cache after a page is offered to it. A cache of size zero holds
/// nothing. A page whose address is already cached takes the place of the
/// page that was there. Otherwise the oldest entries leave as far as the
/// cache is full, which is one entry in a cache that was within its size,
/// and the page goes to the end.
pub open spec fn cache_spec(
    keys: Seq<Seq<char>>,
    values: Seq<Seq<char>>,
    size: nat,
    url: Seq<char>,
    channel: Seq<char>,
) -> (Seq<Seq<char>>, Seq<Seq<char>>) {
    if size == 0 {
        (Seq::empty(), Seq::empty())
    } else if holds(keys, url) {
        (keys, values.update(place(keys, url), channel))
    } else {
        let gone = overflow(keys.len(), size) as int;
        (keys.skip(gone).push(url), values.skip(gone).push(channel))
    }
}

/// A cache that is within its size stays within it, and a full one loses
/// exactly its oldest entry to a new address; a cached address keeps every
/// entry in its place.
pub proof fn lemma_cache_bounded(
    keys: Seq<Seq<char>>,
    values: Seq<Seq<char>>,
    size: nat,
    url: Seq<char>,
    channel: Seq<char>,
)
    requires
        distinct(keys),
        keys.len() == values.len(),
    ensures
        ({
            let after = cache_spec(keys, values, size, url, channel);
            &&& after.0.len() == after.1.len()
            &&& keys.len() <= size ==> after.0.len() <= size
            &&& size > 0 ==> holds(after.0, url) && after.1[place(after.0, url)] == channel
            &&& size > 0 && holds(keys, url) ==> after.0 == keys
            &&& size > 0 && !holds(keys, url) && keys.len() == size ==> after.0 == keys.skip(1).push(
                url,
            ) && after.1 == values.skip(1).push(channel)
            &&& size > 0 && !holds(keys, url) && keys.len() < size ==> after.0 == keys.push(url)
                && after.1 == values.push(channel)
        }),
{
    let after = cache_spec(keys, values, size, url, channel);
    if size > 0 {
        if holds(keys, url) {
            let i = place(keys, url);
            assert(key_at(keys, url, i));
        } else {
            let gone = overflow(keys.len(), size) as int;
            let kept = keys.skip(gone);
            let n = kept.len() as int;
            assert(key_at(after.0, url, n));
            assert(distinct(after.0)) by {
                assert forall|i: int, j: int| 0 <= i < j < after.0.len() implies after.0[i]
                    != after.0[j] by {
                    if j == n {
                        assert(key_at(keys, after.0[i], i + gone));
                    } else {
                        assert(after.0[i] == keys[i + gone]);
                        assert(after.0[j] == keys[j + gone]);
                    }
                }
            }
            lemma_place(after.0, url, n);
            if gone == 0 {
                assert(keys.skip(0) =~= keys);
                assert(values.skip(0) =~= values);
            }
        }
    }
}

/// The strings that hold the given texts.
pub fn to_strings(pieces: &Vec<Vec<char>>) -> (r: Vec<String>)
    ensures
        strings(r@) == views(pieces@),
{
    let mut r: Vec<String> = Vec::new();
    let mut i: usize = 0;
    while i < pieces.len()
        invariant
            i <= pieces.len(),
            strings(r@) == views(pieces@).take(i as int),
        decreases pieces.len() - i,
    {
        let ghost before = strings(r@);
        r.push(from_chars(&pieces[i]));
        proof {
            assert(strings(r@) =~= before.push(pieces@[i as int]@));
            assert(strings(r@) =~= views(pieces@).take(i + 1));
        }
        i = i + 1;
    }
    proof {
        assert(views(pieces@).take(i as int) =~= views(pieces@));
    }
    r
}

/// The fields of a record line.
pub fn record(line: &Vec<char>) -> (r: Vec<Vec<char>>)
    ensures
        views(r@) == record_spec(line@),
{
    let pieces = nonempty(split(line, Separator::Char(',')));
    let ghost raw = views(pieces@);
    let mut r: Vec<Vec<char>> = Vec::new();
    let mut i: usize = 0;
    while i < pieces.len()
        invariant
            i <= pieces.len(),
            raw == views(pieces@),
            views(r@) == cleaned(raw).take(i as int),
        decreases pieces.len() - i,
    {
        let ghost before = views(r@);
        r.push(clean(&pieces[i]));
        proof {
            assert(views(r@) =~= before.push(clean_spec(pieces@[i as int]@)));
            assert(views(r@) =~= cleaned(raw).take(i + 1));
        }
        i = i + 1;
    }
    proof {
        assert(cleaned(raw).take(i as int) =~= cleaned(raw));
    }
    r
}

/// The outcome of reading settings as plain values.
pub open spec fn settings_view(r: Result<Settings, SettingsError>) -> Result<
    SettingsView,
    SettingsError,
> {
    match r {
        Ok(settings) => Ok(settings@),
        Err(e) => Err(e),
    }
}

impl Settings {
    /// The variables as plain values.
    pub closed spec fn variables(&self) -> VarsView {
        self.vars@
    }

    /// The links and blacklists as plain values.
    pub closed spec fn records(&self) -> LinksView {
        LinksView {
            headings: self.links.keys(),
            links: lists(self.links.values()),
            blacklisted: self.blacklist.keys(),
            blacklists: lists(self.blacklist.values()),
        }
    }

    /// The addresses of the cached pages, oldest first.
    pub closed spec fn cache_keys(&self) -> Seq<Seq<char>> {
        self.cache.keys()
    }

    /// The cached pages, in the order of their addresses.
    pub closed spec fn cache_values(&self) -> Seq<Seq<char>> {
        strings(self.cache.values())
    }

    /// No heading, no link with a blacklist and no cached address occurs
    /// twice, and each has its list or its page. This holds of all settings.
    pub open spec fn wf(&self) -> bool {
        &&& distinct(self.records().headings)
        &&& self.records().headings.len() == self.records().links.len()
        &&& distinct(self.records().blacklisted)
        &&& self.records().blacklisted.len() == self.records().blacklists.len()
        &&& distinct(self.cache_keys())
        &&& self.cache_keys().len() == self.cache_values().len()
    }

    /// What the three tables promise gives `wf`.
    proof fn lemma_tables(&self)
        requires
            self.cache.wf(),
            self.links.wf(),
            self.blacklist.wf(),
        ensures
            self.wf(),
    {
    }

    /// The settings as plain values.
    pub open spec fn view(&self) -> SettingsView {
        SettingsView {
            vars: self.variables(),
            records: self.records(),
            cache_keys: self.cache_keys(),
            cache_values: self.cache_values(),
        }
    }

    /// Reads the contents of a settings file, with the platform's template
    /// directory, whatever it is, for a file that names none. A file
    /// without its two sections is refused before the platform is asked;
    /// without a directory from the platform nothing more is read.
    pub fn read(contents: &str) -> (r: Result<Settings, SettingsError>)
        ensures
            two_parts(contents@, "[RssLinks]"@).is_none() ==> r == Err::<Settings, SettingsError>(
                SettingsError::Formatting,
            ),
            r == Err::<Settings, SettingsError>(SettingsError::Vars(VarsError::NoDirectory))
                || exists|templateloc: Seq<char>|
                settings_view(r) == settings_spec(contents@, templateloc),
            r.is_ok() ==> r.unwrap().wf(),
    {
        let chars = to_chars(contents);
        let marker = to_chars("[RssLinks]");
        proof {
            reveal_strlit("[RssLinks]");
        }
        if split_in_two(&chars, &marker).is_none() {
            proof {
                assert(settings_view(Err(SettingsError::Formatting)) == settings_spec(
                    contents@,
                    Seq::empty(),
                ));
            }
            return Err(SettingsError::Formatting);
        }
        match default_templateloc() {
            Some(templateloc) => {
                let r = Self::parse(contents, templateloc);
                proof {
                    assert(settings_view(r) == settings_spec(contents@, templateloc@));
                }
                r
            },
            None => Err(SettingsError::Vars(VarsError::NoDirectory)),
        }
    }

    /// Reads the contents of a settings file. `templateloc` is the template
    /// directory to use where the file names none.
    pub fn parse(contents: &str, templateloc: String) -> (r: Result<Settings, SettingsError>)
        ensures
            match r {
                Ok(settings) => settings.wf() && settings_spec(contents@, templateloc@) == Ok::<
                    SettingsView,
                    SettingsError,
                >(settings@),
                Err(e) => settings_spec(contents@, templateloc@) == Err::<
                    SettingsView,
                    SettingsError,
                >(e),
            },
    {
        let chars = to_chars(contents);
        let marker = to_chars("[RssLinks]");
        proof {
            reveal_strlit("[RssLinks]");
        }
        let (head, rest) = match split_in_two(&chars, &marker) {
            Some(parts) => parts,
            None => {
                return Err(SettingsError::Formatting);
            },
        };
        let head_text = from_chars(&head);
        let vars = match Vars::parse(head_text.as_str(), templateloc) {
            Ok(vars) => vars,
            Err(e) => {
                return Err(SettingsError::Vars(e));
            },
        };
        let lines = nonempty(split(&rest, Separator::Char('\n')));
        let ghost all = views(lines@);
        let mut links: Table<Vec<String>> = Table::new();
        let mut blacklist: Table<Vec<String>> = Table::new();
        let mut i: usize = 0;
        proof {
            assert(all.take(0) =~= Seq::<Seq<char>>::empty());
            assert(lists(links.values()) =~= Seq::<Seq<Seq<char>>>::empty());
            assert(lists(blacklist.values()) =~= Seq::<Seq<Seq<char>>>::empty());
        }
        while i < lines.len()
            invariant
                i <= lines.len(),
                all == views(lines@),
                all == record_lines(rest@),
                two_parts(contents@, "[RssLinks]"@) == Some((head@, rest@)),
                vars_spec(head@, templateloc@) == Ok::<VarsView, VarsError>(vars@),
                links.wf(),
                blacklist.wf(),
                apply_records(no_links(), all.take(i as int)) == Ok::<LinksView, SettingsError>(
                    LinksView {
                        headings: links.keys(),
                        links: lists(links.values()),
                        blacklisted: blacklist.keys(),
                        blacklists: lists(blacklist.values()),
                    },
                ),
            decreases lines.len() - i,
        {
            proof {
                let t = all.take(i + 1);
                assert(t.drop_last() =~= all.take(i as int));
                assert(t.last() == lines@[i as int]@);
                assert(t.len() - 1 == i);
            }
            let fields = record(&lines[i]);
            if fields.len() != 3 {
                proof {
                    lemma_record_error_stays(no_links(), all, i + 1);
                }
                return Err(SettingsError::Record(i));
            }
            assert(record_spec(lines@[i as int]@)[0] == fields@[0]@);
            assert(record_spec(lines@[i as int]@)[1] == fields@[1]@);
            assert(record_spec(lines@[i as int]@)[2] == fields@[2]@);
            let heading = from_chars(&fields[0]);
            let link = from_chars(&fields[1]);
            let link_again = from_chars(&fields[1]);
            let words = nonempty(split(&fields[2], Separator::Char(' ')));
            let black = to_strings(&words);
            append_item(&mut links, heading, link);
            let ghost old_black = blacklist;
            blacklist.insert(link_again, black);
            proof {
                assert(lists(blacklist.values()) =~= put(
                    old_black.keys(),
                    lists(old_black.values()),
                    link_again@,
                    strings(black@),
                ).1);
            }
            i = i + 1;
        }
        proof {
            assert(all.take(i as int) =~= all);
        }
        let cache: Table<String> = Table::new();
        proof {
            assert(strings(cache.values()) =~= Seq::<Seq<char>>::empty());
        }
        Ok(Settings { cache, vars, links, blacklist })
    }

    /// Every link, heading by heading.
    pub fn get_links(&self) -> (r: Vec<String>)
        ensures
            self.wf(),
            strings(r@) == concat_spec(self.records().links),
    {
        proof {
            use_type_invariant(&self.cache);
            use_type_invariant(&self.links);
            use_type_invariant(&self.blacklist);
            self.lemma_tables();
        }
        let ghost all = lists(self.links.values());
        let mut r: Vec<String> = Vec::new();
        let mut i: usize = 0;
        proof {
            assert(all.take(0) =~= Seq::<Seq<Seq<char>>>::empty());
            assert(strings(r@) =~= concat_spec(all.take(0)));
        }
        while i < self.links.len()
            invariant
                i <= self.links.values().len(),
                all == lists(self.links.values()),
                strings(r@) == concat_spec(all.take(i as int)),
            decreases self.links.values().len() - i,
        {
            let list = self.links.value(i);
            proof {
                assert(all.take(i + 1).drop_last() =~= all.take(i as int));
                assert(all.take(i + 1).last() == strings(list@));
            }
            let ghost done = strings(r@);
            let mut j: usize = 0;
            while j < list.len()
                invariant
                    j <= list.len(),
                    strings(r@) == done + strings(list@).take(j as int),
                decreases list.len() - j,
            {
                let ghost before = strings(r@);
                r.push(list[j].clone());
                proof {
                    assert(strings(r@) =~= before.push(list@[j as int]@));
                    assert(strings(r@) =~= done + strings(list@).take(j + 1));
                }
                j = j + 1;
            }
            proof {
                assert(strings(list@).take(j as int) =~= strings(list@));
            }
            i = i + 1;
        }
        proof {
            assert(all.take(i as int) =~= all);
        }
        r
    }

    /// Every heading, in the order of first appearance.
    pub fn get_headings(&self) -> (r: Vec<String>)
        ensures
            self.wf(),
            strings(r@) == self.records().headings,
    {
        proof {
            use_type_invariant(&self.cache);
            use_type_invariant(&self.links);
            use_type_invariant(&self.blacklist);
            self.lemma_tables();
        }
        let mut r: Vec<String> = Vec::new();
        let mut i: usize = 0;
        while i < self.links.len()
            invariant
                i <= self.links.keys().len(),
                strings(r@) == self.links.keys().take(i as int),
            decreases self.links.keys().len() - i,
        {
            let ghost before = strings(r@);
            r.push(self.links.key(i).clone());
            proof {
                assert(strings(r@) =~= before.push(self.links.keys()[i as int]));
                assert(strings(r@) =~= self.links.keys().take(i + 1));
            }
            i = i + 1;
        }
        proof {
            assert(self.links.keys().take(i as int) =~= self.links.keys());
        }
        r
    }

    /// Offers a page to the cache. A cache of size zero holds nothing; a page
    /// for a cached address replaces the old page; a new address makes the
    /// oldest entries leave as far as the cache is full.
    pub fn cache(&mut self, url: String, channel: String)
        ensures
            final(self).wf(),
            final(self).variables() == old(self).variables(),
            final(self).records() == old(self).records(),
            (final(self).cache_keys(), final(self).cache_values()) == cache_spec(
                old(self).cache_keys(),
                old(self).cache_values(),
                old(self).variables().cache as nat,
                url@,
                channel@,
            ),
            old(self).cache_keys().len() <= old(self).variables().cache
                ==> final(self).cache_keys().len() <= final(self).variables().cache,
    {
        proof {
            use_type_invariant(&self.cache);
            use_type_invariant(&self.links);
            use_type_invariant(&self.blacklist);
            lemma_cache_bounded(
                self.cache.keys(),
                strings(self.cache.values()),
                self.vars.cache as nat,
                url@,
                channel@,
            );
        }
        let size = self.cachesize();
        let ghost start = self.cache;
        let mut cache: Table<String> = Table::new();
        if size > 0 {
            core::mem::swap(&mut self.cache, &mut cache);
            if cache.contains_key(&url) {
                cache.insert(url, channel);
                proof {
                    assert(strings(cache.values()) =~= strings(start.values()).update(
                        place(start.keys(), url@),
                        channel@,
                    ));
                }
            } else {
                let ghost mut gone: int = 0;
                proof {
                    assert(start.keys().skip(0) =~= start.keys());
                    assert(start.values().skip(0) =~= start.values());
                }
                while cache.len() >= size
                    invariant
                        size > 0,
                        start.wf(),
                        cache.wf(),
                        0 <= gone <= overflow(start.keys().len(), size as nat),
                        gone <= start.keys().len(),
                        cache.keys() == start.keys().skip(gone),
                        cache.values() == start.values().skip(gone),
                    decreases cache.keys().len(),
                {
                    cache.remove_first();
                    proof {
                        assert(start.keys().skip(gone).skip(1) =~= start.keys().skip(gone + 1));
                        assert(start.values().skip(gone).skip(1) =~= start.values().skip(
                            gone + 1,
                        ));
                        gone = gone + 1;
                    }
                }
                proof {
                    assert(gone == overflow(start.keys().len(), size as nat));
                    assert(!holds(cache.keys(), url@)) by {
                        if holds(cache.keys(), url@) {
                            let k = place(cache.keys(), url@);
                            assert(key_at(cache.keys(), url@, k));
                            assert(key_at(start.keys(), url@, k + gone));
                        }
                    }
                }
                let ghost before = cache;
                cache.insert(url, channel);
                proof {
                    assert(strings(before.values()) =~= strings(start.values()).skip(gone));
                    assert(strings(cache.values()) =~= strings(before.values()).push(channel@));
                }
            }
        } else {
            proof {
                assert(strings(cache.values()) =~= Seq::<Seq<char>>::empty());
            }
        }
        self.cache = cache;
    }

    /// The page cached for an address, if there is one.
    pub fn cached(&self, url: &String) -> (r: Option<String>)
        ensures
            self.wf(),
            match r {
                Some(page) => holds(self.cache_keys(), url@) && page@ == self.cache_values()[place(
                    self.cache_keys(),
                    url@,
                )],
                None => !holds(self.cache_keys(), url@),
            },
    {
        proof {
            use_type_invariant(&self.cache);
            use_type_invariant(&self.links);
            use_type_invariant(&self.blacklist);
            self.lemma_tables();
        }
        match self.cache.get(url) {
            Some(page) => Some(page.clone()),
            None => None,
        }
    }

    /// The blacklist of a link that the settings hold.
    pub fn get_blacklist(&self, link: &String) -> (r: &Vec<String>)
        requires
            holds(self.records().blacklisted, link@),
        ensures
            strings(r@) == self.records().blacklists[place(self.records().blacklisted, link@)],
    {
        match self.blacklist.get(link) {
            Some(list) => list,
            None => {
                proof {
                    assert(false);
                }
                vstd::pervasive::unreached()
            },
        }
    }

    /// How many pages the cache is meant to hold.
    pub fn cachesize(&self) -> (n: usize)
        ensures
            n == self.variables().cache,
    {
        self.vars.cache as usize
    }

    /// How many fetches run at a time.
    pub fn parallelization(&self) -> (n: usize)
        ensures
            n == self.variables().parallel,
    {
        self.vars.parallel as usize
    }

    /// The user agent, if the settings name one.
    pub fn useragent(&self) -> (r: Option<String>)
        ensures
            text_of(r) == self.variables().ua,
    {
        match &self.vars.ua {
            Some(r) => Some(r.clone()),
            None => None,
        }
    }
}

} // verus!
