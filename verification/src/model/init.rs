//! The configuration file: a section of settings, the marker `[RssLinks]`,
//! and one `heading, name, link[, options]` line per source.

use crate::dirs::{config_local_dir, path_in};
use crate::number::{decimal_spec, parse_decimal};
use crate::table::{append_item, append_spec, copy_lists, holds, lists, strings, Table};
use crate::text::{
    from_chars, matches_at, nonempty, nonempty_spec, occurs_at, run_end, skip_run, slice, split,
    split_in_two, split_spec, text_of, to_chars, two_parts, views, Separator,
};
use directories::ProjectDirs;
use vstd::prelude::*;
use vstd::string::StringExecFns;

verus! {

/// What the web side needs: where the templates are, the sources under each
/// heading, and the number of workers that serve connections.
#[derive(Debug)]
pub struct ClientBag {
    pub templatedir: String,
    pub headings: Table<Vec<String>>,
    pub clients: usize,
}

/// What the fetching side needs: the address of each source, the sources to
/// archive and where, the user agent, the number of fetch workers and the
/// capacity of the cache.
#[derive(Debug)]
pub struct ServerBag {
    pub names: Table<String>,
    pub archive_lst: Vec<String>,
    pub archivedir: Option<String>,
    pub useragent: String,
    pub download: usize,
    pub cachesz: usize,
}

/// A `ClientBag` as plain values.
pub struct ClientBagView {
    pub templatedir: Seq<char>,
    pub headings: Seq<Seq<char>>,
    pub grouped: Seq<Seq<Seq<char>>>,
    pub clients: usize,
}

/// A `ServerBag` as plain values.
pub struct ServerBagView {
    pub names: Seq<Seq<char>>,
    pub urls: Seq<Seq<char>>,
    pub archive_lst: Seq<Seq<char>>,
    pub archivedir: Option<Seq<char>>,
    pub useragent: Seq<char>,
    pub download: usize,
    pub cachesz: usize,
}

impl View for ClientBag {
    type V = ClientBagView;

    open spec fn view(&self) -> ClientBagView {
        ClientBagView {
            templatedir: self.templatedir@,
            headings: self.headings.keys(),
            grouped: lists(self.headings.values()),
            clients: self.clients,
        }
    }
}

impl Clone for ClientBag {
    /// A bag with the same template directory, headings and number of
    /// workers.
    fn clone(&self) -> (copy: Self)
        ensures
            copy@ == self@,
    {
        ClientBag {
            templatedir: self.templatedir.clone(),
            headings: copy_lists(&self.headings),
            clients: self.clients,
        }
    }
}

impl View for ServerBag {
    type V = ServerBagView;

    open spec fn view(&self) -> ServerBagView {
        ServerBagView {
            names: self.names.keys(),
            urls: strings(self.names.values()),
            archive_lst: strings(self.archive_lst@),
            archivedir: text_of(self.archivedir),
            useragent: self.useragent@,
            download: self.download,
            cachesz: self.cachesz,
        }
    }
}

/// Why a configuration was refused.
#[derive(Clone, Copy, Debug, PartialEq, Eq, Structural)]
pub enum InitError {
    /// The marker `[RssLinks]` is missing or stands there more than once.
    Sections,
    /// The source line with this index, counted from zero over the non-empty
    /// lines after the marker, is not of the form
    /// `heading, name, link[, options]`.
    Line(usize),
    /// The source line with this index names a source for the second time.
    Duplicate(usize),
    /// No template directory is configured and the platform offers no
    /// project directory to fall back on.
    NoProjectDirs,
}

pub const DEFAULT_USERAGENT: &'static str =
    "Mozilla/5.0 (Windows NT 10.0; Win64; x64; rv:126.0) Gecko/20100101 Firefox/126.1";

pub const DEFAULT_DOWNLOAD: usize = 3;

pub const DEFAULT_CACHE: usize = 10;

pub const DEFAULT_CLIENTS: usize = 3;

/// Where this application keeps its files by default: the path of its
/// configuration file and its data directory, which is the local
/// configuration directory that the platform gives it. There is none where
/// the platform gives no such directory.
pub fn projfiles() -> Option<(String, String)> {
    let dirs = match ProjectDirs::from("com", "Sanvi", "Sanvi") {
        Some(dirs) => dirs,
        None => {
            return None;
        },
    };
    match config_local_dir(&dirs) {
        Some(dir) => match path_in(dir.as_str(), "sanvi.conf") {
            Some(file) => Some((file, dir)),
            None => None,
        },
        None => None,
    }
}

/// The configuration file to read: the one that was asked for, or else the
/// default one, if the platform offers a place for it.
pub fn config_file(file: Option<String>) -> (r: Option<String>)
    ensures
        file.is_some() ==> r == file,
{
    match file {
        Some(s) => Some(s),
        None => match projfiles() {
            Some((file, _)) => Some(file),
            None => None,
        },
    }
}

/// The settings of a configuration.
#[derive(Debug)]
pub struct Tunables {
    /// The template directory, if one is configured.
    pub template: Option<String>,
    /// The archive directory, if one is configured.
    pub archive: Option<String>,
    pub useragent: String,
    pub download: usize,
    pub cachesz: usize,
    pub clients: usize,
}

/// The settings of a configuration as plain values.
pub struct TunablesView {
    pub template: Option<Seq<char>>,
    pub archive: Option<Seq<char>>,
    pub useragent: Seq<char>,
    pub download: usize,
    pub cachesz: usize,
    pub clients: usize,
}

impl View for Tunables {
    type V = TunablesView;

    open spec fn view(&self) -> TunablesView {
        TunablesView {
            template: text_of(self.template),
            archive: text_of(self.archive),
            useragent: self.useragent@,
            download: self.download,
            cachesz: self.cachesz,
            clients: self.clients,
        }
    }
}

/// How the value of a setting is written.
#[derive(Clone, Copy, Debug, PartialEq, Eq, Structural)]
pub enum Shape {
    /// As a word: a run of characters that are not whitespace.
    Word,
    /// Between two single quotes, as a run of characters that are no single
    /// quotes.
    Quoted,
}

/// The position of the `=` sign that follows position `from` after any
/// whitespace, if there is one.
pub open spec fn equals_after(hay: Seq<char>, from: int) -> Option<int> {
    let at = run_end(hay, from, Separator::Whitespace, true);
    if 0 <= at < hay.len() && hay[at] == '=' {
        Some(at)
    } else {
        None
    }
}

/// The value that is written after position `from`: after any whitespace an
/// `=` sign, after any whitespace again the value, which is not empty.
pub open spec fn value_after(hay: Seq<char>, from: int, shape: Shape) -> Option<Seq<char>> {
    match equals_after(hay, from) {
        None => None,
        Some(at) => {
            let start = run_end(hay, at + 1, Separator::Whitespace, true);
            match shape {
                Shape::Word => {
                    let end = run_end(hay, start, Separator::Whitespace, false);
                    if start < end {
                        Some(hay.subrange(start, end))
                    } else {
                        None
                    }
                },
                Shape::Quoted => if start < hay.len() && hay[start] == '\'' {
                    let end = run_end(hay, start + 1, Separator::Char('\''), false);
                    if start + 1 < end < hay.len() {
                        Some(hay.subrange(start + 1, end))
                    } else {
                        None
                    }
                } else {
                    None
                },
            }
        },
    }
}

/// The value of the first place at or after `from` where `key` stands with
/// a value after it.
pub open spec fn setting_from(hay: Seq<char>, key: Seq<char>, shape: Shape, from: int) -> Option<
    Seq<char>,
>
    decreases hay.len() - from,
{
    if from < 0 || from >= hay.len() {
        None
    } else if occurs_at(hay, key, from) && value_after(hay, from + key.len(), shape).is_some() {
        value_after(hay, from + key.len(), shape)
    } else {
        setting_from(hay, key, shape, from + 1)
    }
}

/// The value of a setting: that of the first place in the text where the
/// setting's name stands, anywhere, with a value after it.
pub open spec fn setting_spec(hay: Seq<char>, key: Seq<char>, shape: Shape) -> Option<Seq<char>> {
    setting_from(hay, key, shape, 0)
}

/// The number that a setting gives: the number it writes, or `default` where
/// the setting is missing or writes no number that fits.
pub open spec fn count_of(setting: Option<Seq<char>>, default: usize) -> usize {
    match setting {
        Some(text) => match decimal_spec(text, usize::MAX as nat) {
            Some(n) => n as usize,
            None => default,
        },
        None => default,
    }
}

/// The user agent that a setting gives.
pub open spec fn useragent_of(setting: Option<Seq<char>>) -> Seq<char> {
    match setting {
        Some(text) => text,
        None => DEFAULT_USERAGENT@,
    }
}

/// What `settings_maker` makes of a settings section.
pub open spec fn tunables_spec(hay: Seq<char>) -> TunablesView {
    TunablesView {
        template: setting_spec(hay, "template"@, Shape::Word),
        archive: setting_spec(hay, "archive"@, Shape::Word),
        useragent: useragent_of(setting_spec(hay, "useragent"@, Shape::Quoted)),
        download: count_of(setting_spec(hay, "download"@, Shape::Word), DEFAULT_DOWNLOAD),
        cachesz: count_of(setting_spec(hay, "cache-limit"@, Shape::Word), DEFAULT_CACHE),
        clients: count_of(setting_spec(hay, "clients"@, Shape::Word), DEFAULT_CLIENTS),
    }
}

/// Reads the value that is written after position `from`.
pub fn read_value(hay: &Vec<char>, from: usize, shape: Shape) -> (r: Option<String>)
    requires
        from <= hay.len(),
    ensures
        text_of(r) == value_after(hay@, from as int, shape),
{
    let at = skip_run(hay, from, Separator::Whitespace, true);
    if at >= hay.len() || hay[at] != '=' {
        return None;
    }
    let start = skip_run(hay, at + 1, Separator::Whitespace, true);
    match shape {
        Shape::Word => {
            let end = skip_run(hay, start, Separator::Whitespace, false);
            if start < end {
                Some(from_chars(&slice(hay, start, end)))
            } else {
                None
            }
        },
        Shape::Quoted => {
            if start >= hay.len() || hay[start] != '\'' {
                return None;
            }
            let end = skip_run(hay, start + 1, Separator::Char('\''), false);
            if start + 1 < end && end < hay.len() {
                Some(from_chars(&slice(hay, start + 1, end)))
            } else {
                None
            }
        },
    }
}

/// Searches the settings for a name with a value after it.
pub fn setting(hay: &Vec<char>, key: &str, shape: Shape) -> (r: Option<String>)
    ensures
        text_of(r) == setting_spec(hay@, key@, shape),
{
    let name = to_chars(key);
    let mut i: usize = 0;
    while i < hay.len()
        invariant
            i <= hay.len(),
            name@ == key@,
            setting_spec(hay@, key@, shape) == setting_from(hay@, key@, shape, i as int),
        decreases hay.len() - i,
    {
        if matches_at(hay, &name, i) {
            match read_value(hay, i + name.len(), shape) {
                Some(value) => {
                    return Some(value);
                },
                None => {},
            }
        }
        i = i + 1;
    }
    None
}

/// Reads the number of a setting.
pub fn count(setting: &Option<String>, default: usize) -> (n: usize)
    ensures
        n == count_of(text_of(*setting), default),
{
    match setting {
        Some(text) => match parse_decimal(&to_chars(text.as_str()), usize::MAX as u64) {
            Some(n) => n as usize,
            None => default,
        },
        None => default,
    }
}

/// Reads the settings section of a configuration. A setting that the section
/// does not hold takes its default.
pub fn settings_maker(hay: &str) -> (t: Tunables)
    ensures
        t@ == tunables_spec(hay@),
{
    let hay = to_chars(hay);
    let template = setting(&hay, "template", Shape::Word);
    let archive = setting(&hay, "archive", Shape::Word);
    let useragent = match setting(&hay, "useragent", Shape::Quoted) {
        Some(text) => text,
        None => String::from_str(DEFAULT_USERAGENT),
    };
    let download = count(&setting(&hay, "download", Shape::Word), DEFAULT_DOWNLOAD);
    let cachesz = count(&setting(&hay, "cache-limit", Shape::Word), DEFAULT_CACHE);
    let clients = count(&setting(&hay, "clients", Shape::Word), DEFAULT_CLIENTS);
    Tunables { template, archive, useragent, download, cachesz, clients }
}

/// A source line: the heading, the name and the address of a source, and
/// its options if the line has any.
#[derive(Debug)]
pub struct LinkLine {
    pub heading: String,
    pub name: String,
    pub link: String,
    pub options: Option<String>,
}

/// A source line as plain values.
pub struct LinkLineView {
    pub heading: Seq<char>,
    pub name: Seq<char>,
    pub link: Seq<char>,
    pub options: Option<Seq<char>>,
}

impl View for LinkLine {
    type V = LinkLineView;

    open spec fn view(&self) -> LinkLineView {
        LinkLineView {
            heading: self.heading@,
            name: self.name@,
            link: self.link@,
            options: text_of(self.options),
        }
    }
}

/// The view of an optional source line.
pub open spec fn line_view(line: Option<LinkLine>) -> Option<LinkLineView> {
    match line {
        Some(l) => Some(l@),
        None => None,
    }
}

/// A field without the whitespace that it begins with; of a field of
/// nothing but whitespace, its last character.
pub open spec fn field_tail(field: Seq<char>) -> Seq<char> {
    let start = run_end(field, 0, Separator::Whitespace, true);
    if start < field.len() {
        field.skip(start)
    } else {
        field.skip(field.len() - 1)
    }
}

/// Whether `c` is one of the letters `A` to `Z` and `a` to `z`.
pub open spec fn is_letter(c: char) -> bool {
    0x41 <= c as u32 <= 0x5A || 0x61 <= c as u32 <= 0x7A
}

/// The options that a field writes: after any whitespace one or two
/// letters, and nothing else.
pub open spec fn options_of(field: Seq<char>) -> Option<Seq<char>> {
    let letters = field.skip(run_end(field, 0, Separator::Whitespace, true));
    if letters.len() == 1 && is_letter(letters[0]) {
        Some(letters)
    } else if letters.len() == 2 && is_letter(letters[0]) && is_letter(letters[1]) {
        Some(letters)
    } else {
        None
    }
}

/// What a source line says, if it is well formed: three or four fields
/// between commas, the first three of them not empty. The heading is the
/// first field as it stands; the name and the address are the second and
/// third fields without the whitespace they begin with; the fourth field,
/// if there is one, writes the options.
pub open spec fn link_line(line: Seq<char>) -> Option<LinkLineView> {
    let fields = split_spec(line, Separator::Char(','));
    if (fields.len() == 3 || fields.len() == 4) && fields[0].len() > 0 && fields[1].len() > 0
        && fields[2].len() > 0 {
        let options = if fields.len() == 4 {
            options_of(fields[3])
        } else {
            None
        };
        if fields.len() == 4 && options.is_none() {
            None
        } else {
            Some(
                LinkLineView {
                    heading: fields[0],
                    name: field_tail(fields[1]),
                    link: field_tail(fields[2]),
                    options,
                },
            )
        }
    } else {
        None
    }
}

/// Takes the leading whitespace off a field that is not empty.
pub fn tail_of(field: &Vec<char>) -> (r: String)
    requires
        field.len() > 0,
    ensures
        r@ == field_tail(field@),
{
    let start = skip_run(field, 0, Separator::Whitespace, true);
    let from = if start < field.len() {
        start
    } else {
        field.len() - 1
    };
    let r = from_chars(&slice(field, from, field.len()));
    proof {
        assert(field@.subrange(from as int, field@.len() as int) =~= field@.skip(from as int));
    }
    r
}

/// Tests whether `c` is one of the letters `A` to `Z` and `a` to `z`.
pub fn letter(c: char) -> (b: bool)
    ensures
        b == is_letter(c),
{
    let n: u32 = c as u32;
    (0x41 <= n && n <= 0x5A) || (0x61 <= n && n <= 0x7A)
}

/// Reads the options that a field writes.
pub fn options(field: &Vec<char>) -> (r: Option<String>)
    ensures
        text_of(r) == options_of(field@),
{
    let start = skip_run(field, 0, Separator::Whitespace, true);
    let count = field.len() - start;
    proof {
        assert(field@.skip(start as int).len() == count);
        assert(field@.subrange(start as int, field@.len() as int) =~= field@.skip(start as int));
    }
    if count == 1 && letter(field[start]) {
        Some(from_chars(&slice(field, start, field.len())))
    } else if count == 2 && letter(field[start]) && letter(field[start + 1]) {
        Some(from_chars(&slice(field, start, field.len())))
    } else {
        None
    }
}

/// Reads a source line.
pub fn read_line(line: &Vec<char>) -> (r: Option<LinkLine>)
    ensures
        line_view(r) == link_line(line@),
{
    let fields = split(line, Separator::Char(','));
    if fields.len() != 3 && fields.len() != 4 {
        return None;
    }
    assert(views(fields@)[0] == fields@[0]@);
    assert(views(fields@)[1] == fields@[1]@);
    assert(views(fields@)[2] == fields@[2]@);
    if fields[0].len() == 0 || fields[1].len() == 0 || fields[2].len() == 0 {
        return None;
    }
    let options = if fields.len() == 4 {
        assert(views(fields@)[3] == fields@[3]@);
        match options(&fields[3]) {
            Some(o) => Some(o),
            None => {
                return None;
            },
        }
    } else {
        None
    };
    Some(
        LinkLine {
            heading: from_chars(&fields[0]),
            name: tail_of(&fields[1]),
            link: tail_of(&fields[2]),
            options,
        },
    )
}

/// The sources of a configuration as plain values: the names under each
/// heading, the address of each name, and the names to archive.
pub struct LinksView {
    pub headings: Seq<Seq<char>>,
    pub grouped: Seq<Seq<Seq<char>>>,
    pub names: Seq<Seq<char>>,
    pub urls: Seq<Seq<char>>,
    pub archive_lst: Seq<Seq<char>>,
}

/// No source yet.
pub open spec fn no_links() -> LinksView {
    LinksView {
        headings: Seq::empty(),
        grouped: Seq::empty(),
        names: Seq::empty(),
        urls: Seq::empty(),
        archive_lst: Seq::empty(),
    }
}

/// Whether the options of a source line ask for archiving: they begin with
/// `Y` or `y`.
pub open spec fn flagged(options: Option<Seq<char>>) -> bool {
    match options {
        Some(text) => text.len() > 0 && (text[0] == 'Y' || text[0] == 'y'),
        None => false,
    }
}

/// The sources after one more line, which is line number `at`.
pub open spec fn link_step(v: LinksView, line: Seq<char>, at: usize) -> Result<
    LinksView,
    InitError,
> {
    match link_line(line) {
        None => Err(InitError::Line(at)),
        Some(source) => if holds(v.names, source.name) {
            Err(InitError::Duplicate(at))
        } else {
            let linked = append_spec(v.headings, v.grouped, source.heading, source.name);
            Ok(
                LinksView {
                    headings: linked.0,
                    grouped: linked.1,
                    names: v.names.push(source.name),
                    urls: v.urls.push(source.link),
                    archive_lst: if flagged(source.options) {
                        v.archive_lst.push(source.name)
                    } else {
                        v.archive_lst
                    },
                },
            )
        },
    }
}

/// The sources after the given lines, read in order up to the first line
/// that is refused.
pub open spec fn link_steps(v: LinksView, lines: Seq<Seq<char>>) -> Result<LinksView, InitError>
    decreases lines.len(),
{
    if lines.len() == 0 {
        Ok(v)
    } else {
        match link_steps(v, lines.drop_last()) {
            Ok(w) => link_step(w, lines.last(), (lines.len() - 1) as usize),
            Err(e) => Err(e),
        }
    }
}

/// Once a line is refused, the lines after it change nothing.
pub proof fn lemma_link_error_stays(v: LinksView, lines: Seq<Seq<char>>, k: int)
    requires
        0 <= k <= lines.len(),
        link_steps(v, lines.take(k)).is_err(),
    ensures
        link_steps(v, lines) == link_steps(v, lines.take(k)),
    decreases lines.len(),
{
    if k < lines.len() {
        assert(lines.drop_last().take(k) =~= lines.take(k));
        lemma_link_error_stays(v, lines.drop_last(), k);
    } else {
        assert(lines.take(k) =~= lines);
    }
}

/// What `links_maker` makes of a sources section: its non-empty lines, read
/// in order.
pub open spec fn links_spec(s: Seq<char>) -> Result<LinksView, InitError> {
    link_steps(no_links(), nonempty_spec(split_spec(s, Separator::Char('\n'))))
}

/// The sources that the three collections hold.
pub open spec fn links_view(
    headings: Table<Vec<String>>,
    names: Table<String>,
    archive_lst: Vec<String>,
) -> LinksView {
    LinksView {
        headings: headings.keys(),
        grouped: lists(headings.values()),
        names: names.keys(),
        urls: strings(names.values()),
        archive_lst: strings(archive_lst@),
    }
}

/// Tests whether the options of a source line ask for archiving.
pub fn is_flagged(options: &Option<String>) -> (b: bool)
    ensures
        b == flagged(text_of(*options)),
{
    match options {
        Some(text) => {
            let chars = to_chars(text.as_str());
            chars.len() > 0 && (chars[0] == 'Y' || chars[0] == 'y')
        },
        None => false,
    }
}

/// Reads the sources section of a configuration: the names under each
/// heading, the address of each name, and the names to archive.
pub fn links_maker(s: &str) -> (r: Result<
    (Table<Vec<String>>, Table<String>, Vec<String>),
    InitError,
>)
    ensures
        match r {
            Ok((headings, names, archive_lst)) => links_spec(s@) == Ok::<LinksView, InitError>(
                links_view(headings, names, archive_lst),
            ),
            Err(e) => links_spec(s@) == Err::<LinksView, InitError>(e),
        },
{
    let mut headings: Table<Vec<String>> = Table::new();
    let mut names: Table<String> = Table::new();
    let mut archive_lst: Vec<String> = Vec::new();
    let lines = nonempty(split(&to_chars(s), Separator::Char('\n')));
    let ghost all = views(lines@);
    let mut i: usize = 0;
    proof {
        assert(all.take(0) =~= Seq::<Seq<char>>::empty());
        assert(lists(headings.values()) =~= Seq::<Seq<Seq<char>>>::empty());
        assert(strings(names.values()) =~= Seq::<Seq<char>>::empty());
        assert(strings(archive_lst@) =~= Seq::<Seq<char>>::empty());
    }
    while i < lines.len()
        invariant
            i <= lines.len(),
            all == views(lines@),
            links_spec(s@) == link_steps(no_links(), all),
            headings.wf(),
            names.wf(),
            link_steps(no_links(), all.take(i as int)) == Ok::<LinksView, InitError>(
                links_view(headings, names, archive_lst),
            ),
        decreases lines.len() - i,
    {
        proof {
            let t = all.take(i + 1);
            assert(t.drop_last() =~= all.take(i as int));
            assert(t.last() == lines@[i as int]@);
            assert(t.len() - 1 == i);
        }
        let ghost before = links_view(headings, names, archive_lst);
        let source = match read_line(&lines[i]) {
            Some(source) => source,
            None => {
                proof {
                    lemma_link_error_stays(no_links(), all, i + 1);
                }
                return Err(InitError::Line(i));
            },
        };
        if names.contains_key(&source.name) {
            proof {
                lemma_link_error_stays(no_links(), all, i + 1);
            }
            return Err(InitError::Duplicate(i));
        }
        if is_flagged(&source.options) {
            let ghost listed = strings(archive_lst@);
            archive_lst.push(source.name.clone());
            proof {
                assert(strings(archive_lst@) =~= listed.push(source.name@));
            }
        }
        append_item(&mut headings, source.heading, source.name.clone());
        let ghost old_names = names;
        names.insert(source.name, source.link);
        proof {
            assert(strings(names.values()) =~= strings(old_names.values()).push(source.link@));
            assert(link_step(before, lines@[i as int]@, i) == Ok::<LinksView, InitError>(
                links_view(headings, names, archive_lst),
            ));
        }
        i = i + 1;
    }
    proof {
        assert(all.take(i as int) =~= all);
    }
    Ok((headings, names, archive_lst))
}

/// A configuration as plain values.
pub struct ConfigView {
    pub tunables: TunablesView,
    pub links: LinksView,
}

/// What a configuration file holds, before the template directory is
/// settled.
pub open spec fn config_spec(contents: Seq<char>) -> Result<ConfigView, InitError> {
    match two_parts(contents, "[RssLinks]"@) {
        None => Err(InitError::Sections),
        Some((head, rest)) => match links_spec(rest) {
            Err(e) => Err(e),
            Ok(links) => Ok(ConfigView { tunables: tunables_spec(head), links }),
        },
    }
}

/// The two bags of a configuration, given the directory to fall back on
/// where no template directory is configured.
pub open spec fn bags_spec(config: ConfigView, fallback: Option<Seq<char>>) -> Result<
    (ClientBagView, ServerBagView),
    InitError,
> {
    let templatedir = match config.tunables.template {
        Some(dir) => Some(dir),
        None => fallback,
    };
    match templatedir {
        None => Err(InitError::NoProjectDirs),
        Some(templatedir) => Ok(
            (
                ClientBagView {
                    templatedir,
                    headings: config.links.headings,
                    grouped: config.links.grouped,
                    clients: config.tunables.clients,
                },
                ServerBagView {
                    names: config.links.names,
                    urls: config.links.urls,
                    archive_lst: config.links.archive_lst,
                    archivedir: config.tunables.archive,
                    useragent: config.tunables.useragent,
                    download: config.tunables.download,
                    cachesz: config.tunables.cachesz,
                },
            ),
        ),
    }
}

/// What `init` makes of the contents of a configuration file, given the
/// directory to fall back on.
pub open spec fn init_spec(contents: Seq<char>, fallback: Option<Seq<char>>) -> Result<
    (ClientBagView, ServerBagView),
    InitError,
> {
    match config_spec(contents) {
        Err(e) => Err(e),
        Ok(config) => bags_spec(config, fallback),
    }
}

/// The outcome of `init` as plain values.
pub open spec fn bags_view(r: Result<(ClientBag, ServerBag), InitError>) -> Result<
    (ClientBagView, ServerBagView),
    InitError,
> {
    match r {
        Ok((client, server)) => Ok((client@, server@)),
        Err(e) => Err(e),
    }
}

/// Reads the two sections of a configuration file.
pub fn sections(contents: &str) -> (r: Result<
    (Tunables, (Table<Vec<String>>, Table<String>, Vec<String>)),
    InitError,
>)
    ensures
        match r {
            Ok((tunables, (headings, names, archive_lst))) => config_spec(contents@) == Ok::<
                ConfigView,
                InitError,
            >(ConfigView { tunables: tunables@, links: links_view(headings, names, archive_lst) }),
            Err(e) => config_spec(contents@) == Err::<ConfigView, InitError>(e),
        },
{
    let chars = to_chars(contents);
    let marker = to_chars("[RssLinks]");
    proof {
        reveal_strlit("[RssLinks]");
    }
    let (head, rest) = match split_in_two(&chars, &marker) {
        Some(parts) => parts,
        None => {
            return Err(InitError::Sections);
        },
    };
    let tunables = settings_maker(from_chars(&head).as_str());
    match links_maker(from_chars(&rest).as_str()) {
        Ok(links) => Ok((tunables, links)),
        Err(e) => Err(e),
    }
}

/// Puts the two bags together. `fallback` is the directory to take the
/// templates from where the configuration names none.
pub fn assemble(
    tunables: Tunables,
    headings: Table<Vec<String>>,
    names: Table<String>,
    archive_lst: Vec<String>,
    fallback: Option<String>,
) -> (r: Result<(ClientBag, ServerBag), InitError>)
    ensures
        bags_view(r) == bags_spec(
            ConfigView { tunables: tunables@, links: links_view(headings, names, archive_lst) },
            text_of(fallback),
        ),
{
    let templatedir = match tunables.template {
        Some(dir) => dir,
        None => match fallback {
            Some(dir) => dir,
            None => {
                return Err(InitError::NoProjectDirs);
            },
        },
    };
    Ok(
        (
            ClientBag { templatedir, headings, clients: tunables.clients },
            ServerBag {
                names,
                archive_lst,
                archivedir: tunables.archive,
                useragent: tunables.useragent,
                download: tunables.download,
                cachesz: tunables.cachesz,
            },
        ),
    )
}

/// Reads the contents of a configuration file into the two bags. Where the
/// configuration names no template directory, the platform's project
/// directory is taken, whatever it is.
pub fn init(contents: &str) -> (r: Result<(ClientBag, ServerBag), InitError>)
    ensures
        exists|fallback: Option<Seq<char>>| bags_view(r) == init_spec(contents@, fallback),
        config_spec(contents@).is_ok() && config_spec(contents@).unwrap().tunables.template.is_some()
            ==> bags_view(r) == init_spec(contents@, None),
        config_spec(contents@).is_err() ==> bags_view(r) == init_spec(contents@, None),
{
    let (tunables, (headings, names, archive_lst)) = match sections(contents) {
        Ok(parts) => parts,
        Err(e) => {
            proof {
                assert(bags_view(Err(e)) == init_spec(contents@, None));
            }
            return Err(e);
        },
    };
    let fallback = if tunables.template.is_none() {
        match projfiles() {
            Some((_, dir)) => Some(dir),
            None => None,
        }
    } else {
        None
    };
    let r = assemble(tunables, headings, names, archive_lst, fallback);
    proof {
        assert(bags_view(r) == init_spec(contents@, text_of(fallback)));
    }
    r
}

} // verus!
