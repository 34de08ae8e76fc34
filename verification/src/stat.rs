//! Stat files: text in which `new`, `type`, `using` and `data` lines describe
//! one stat block after another, with a blank line between two blocks.

use vstd::prelude::*;

verus! {

/// One stat block.
#[derive(Clone, Debug, PartialEq, Eq)]
pub struct Stat {
    /// The block's name, without quotes.
    pub name: String,
    /// The word between `new` and the name.
    pub stat_type: String,
    /// The value of the block's `type` line.
    pub type_value: String,
    /// The value of the block's `using` line.
    pub using: String,
    /// The block's `data` lines as keys with their values. No key stands twice.
    pub data: Vec<(String, String)>,
}

/// What a `Stat` holds.
pub struct StatModel {
    pub name: Seq<char>,
    pub stat_type: Seq<char>,
    pub type_value: Seq<char>,
    pub using: Seq<char>,
    pub data: Seq<(Seq<char>, Seq<char>)>,
}

/// What each pair of `data` holds.
pub open spec fn pair_models(data: Seq<(String, String)>) -> Seq<(Seq<char>, Seq<char>)> {
    Seq::new(data.len(), |i: int| (data[i].0@, data[i].1@))
}

impl View for Stat {
    type V = StatModel;

    open spec fn view(&self) -> StatModel {
        StatModel {
            name: self.name@,
            stat_type: self.stat_type@,
            type_value: self.type_value@,
            using: self.using@,
            data: pair_models(self.data@),
        }
    }
}

/// The index of the first pair of `data` at or behind `from` whose key is
/// `key`, or the length of `data` where there is none.
pub open spec fn key_index(data: Seq<(Seq<char>, Seq<char>)>, key: Seq<char>, from: int) -> int
    decreases data.len() - from,
{
    if from < 0 || from >= data.len() {
        data.len() as int
    } else if data[from].0 == key {
        from
    } else {
        key_index(data, key, from + 1)
    }
}

/// `data` with `value` under `key`: in the place of the value that `key` had,
/// or at the end where it had none.
pub open spec fn put(data: Seq<(Seq<char>, Seq<char>)>, key: Seq<char>, value: Seq<char>) -> Seq<
    (Seq<char>, Seq<char>),
> {
    if key_index(data, key, 0) < data.len() {
        data.update(key_index(data, key, 0), (key, value))
    } else {
        data.push((key, value))
    }
}

/// The value that `data` holds under `key`.
pub open spec fn value_of(data: Seq<(Seq<char>, Seq<char>)>, key: Seq<char>) -> Option<
    Seq<char>,
> {
    if key_index(data, key, 0) < data.len() {
        Some(data[key_index(data, key, 0)].1)
    } else {
        None
    }
}

/// No key stands twice in `data`.
pub open spec fn distinct_keys(data: Seq<(Seq<char>, Seq<char>)>) -> bool {
    forall|i: int, j: int| 0 <= i < j < data.len() ==> data[i].0 != data[j].0
}

/// `key_index` gives the first place of the key, if it has one.
pub proof fn lemma_key_index(data: Seq<(Seq<char>, Seq<char>)>, key: Seq<char>, from: int)
    requires
        0 <= from <= data.len(),
    ensures
        from <= key_index(data, key, from) <= data.len(),
        key_index(data, key, from) < data.len() ==> data[key_index(data, key, from)].0 == key,
        forall|k: int| from <= k < key_index(data, key, from) ==> data[k].0 != key,
    decreases data.len() - from,
{
    if from < data.len() && data[from].0 != key {
        lemma_key_index(data, key, from + 1);
    }
}

/// Putting a value under a key keeps the keys distinct, and the key then
/// holds that value while every other key holds what it held.
pub proof fn lemma_put(
    data: Seq<(Seq<char>, Seq<char>)>,
    key: Seq<char>,
    value: Seq<char>,
    other: Seq<char>,
)
    requires
        distinct_keys(data),
    ensures
        distinct_keys(put(data, key, value)),
        value_of(put(data, key, value), key) == Some(value),
        other != key ==> value_of(put(data, key, value), other) == value_of(data, other),
{
    let after = put(data, key, value);
    let at = key_index(data, key, 0);
    lemma_key_index(data, key, 0);
    lemma_key_index(after, key, 0);
    lemma_key_index(data, other, 0);
    lemma_key_index(after, other, 0);
    assert(0 <= at < after.len() && after[at] == (key, value));
    assert(forall|k: int| 0 <= k < after.len() && k != at ==> after[k] == data[k]);
    let found = key_index(after, key, 0);
    assert(found == at) by {
        if found < at {
            assert(after[found].0 == key);
        }
    }
    if other != key {
        let was = key_index(data, other, 0);
        let is = key_index(after, other, 0);
        assert(was < data.len() ==> after[was] == data[was]);
        assert(is < after.len() ==> is != at && after[is] == data[is]);
        assert(is < after.len() ==> is == was) by {
            if is < after.len() && is < was {
                assert(data[is].0 == other);
            }
            if is < after.len() && was < is {
                assert(after[was].0 == other);
            }
        }
        assert(was < data.len() ==> is == was) by {
            if was < data.len() && was < is {
                assert(after[was].0 == other);
            }
        }
    }
}

impl StatModel {
    /// The block with nothing in it.
    pub open spec fn empty() -> StatModel {
        StatModel {
            name: Seq::empty(),
            stat_type: Seq::empty(),
            type_value: Seq::empty(),
            using: Seq::empty(),
            data: Seq::empty(),
        }
    }
}

impl Stat {
    /// No key stands twice among the block's data.
    pub open spec fn wf(&self) -> bool {
        distinct_keys(self@.data)
    }

    /// The block with nothing in it.
    pub fn new() -> (r: Stat)
        ensures
            r@ == StatModel::empty(),
            r.wf(),
    {
        let r = Stat {
            name: String::new(),
            stat_type: String::new(),
            type_value: String::new(),
            using: String::new(),
            data: Vec::new(),
        };
        assert(pair_models(r.data@) =~= Seq::empty());
        r
    }

    /// The index of the pair that holds `key`, or the number of pairs.
    fn find(&self, key: &String) -> (i: usize)
        ensures
            i == key_index(self@.data, key@, 0),
            i <= self.data@.len(),
    {
        let mut i: usize = 0;
        while i < self.data.len()
            invariant
                i <= self.data@.len(),
                key_index(self@.data, key@, 0) == key_index(self@.data, key@, i as int),
            decreases self.data@.len() - i,
        {
            if self.data[i].0 == *key {
                return i;
            }
            i = i + 1;
        }
        i
    }

    /// The value that the block's data hold under `key`.
    pub fn get(&self, key: &str) -> (r: Option<&String>)
        ensures
            match r {
                Some(value) => value_of(self@.data, key@) == Some(value@),
                None => value_of(self@.data, key@) is None,
            },
    {
        let i = self.find(&key.to_owned());
        if i < self.data.len() {
            Some(&self.data[i].1)
        } else {
            None
        }
    }

    /// Puts `value` under `key` among the block's data.
    pub fn insert(&mut self, key: String, value: String)
        ensures
            final(self)@ == (StatModel { data: put(old(self)@.data, key@, value@), ..old(self)@ }),
            old(self).wf() ==> final(self).wf(),
    {
        let i = self.find(&key);
        let ghost before = self.data@;
        proof {
            if old(self).wf() {
                lemma_put(old(self)@.data, key@, value@, key@);
            }
        }
        if i < self.data.len() {
            self.data.set(i, (key, value));
            assert(pair_models(self.data@) =~= pair_models(before).update(
                i as int,
                (key@, value@),
            ));
        } else {
            self.data.push((key, value));
            assert(pair_models(self.data@) =~= pair_models(before).push((key@, value@)));
        }
    }

    /// A copy of the block.
    pub fn snapshot(&self) -> (r: Stat)
        ensures
            r@ == self@,
    {
        let mut data: Vec<(String, String)> = Vec::new();
        let mut i: usize = 0;
        while i < self.data.len()
            invariant
                i <= self.data@.len(),
                data@.len() == i,
                forall|k: int|
                    0 <= k < i ==> (#[trigger] data@[k]).0@ == self.data@[k].0@ && data@[k].1@
                        == self.data@[k].1@,
            decreases self.data@.len() - i,
        {
            data.push((self.data[i].0.clone(), self.data[i].1.clone()));
            i = i + 1;
        }
        assert(pair_models(data@) =~= pair_models(self.data@));
        Stat {
            name: self.name.clone(),
            stat_type: self.stat_type.clone(),
            type_value: self.type_value.clone(),
            using: self.using.clone(),
            data,
        }
    }
}

/// `prefix` stands at the start of `s`.
pub open spec fn is_prefix(prefix: Seq<char>, s: Seq<char>) -> bool {
    prefix.len() <= s.len() && s.subrange(0, prefix.len() as int) == prefix
}

/// `s` with every match of `from` replaced by `to`, as `str::replace` finds them.
pub uninterp spec fn replaced(s: Seq<char>, from: Seq<char>, to: Seq<char>) -> Seq<char>;

/// The words of `s` between its white space, as `str::split_whitespace`
/// gives them.
pub uninterp spec fn whitespace_words(s: Seq<char>) -> Seq<Seq<char>>;

/// The parts of `s` between the matches of `separator`, as `str::split` gives
/// them.
pub uninterp spec fn split_on(s: Seq<char>, separator: Seq<char>) -> Seq<Seq<char>>;

/// What each of `strings` holds.
pub open spec fn string_views(strings: Seq<String>) -> Seq<Seq<char>> {
    Seq::new(strings.len(), |i: int| strings[i]@)
}

/// Trusted: `str::starts_with` with a string as its pattern, which tells
/// whether that string is a prefix.
#[verifier::external_body]
fn str_starts_with(s: &str, prefix: &str) -> (r: bool)
    ensures
        r == is_prefix(prefix@, s@),
{
    s.starts_with(prefix)
}

/// Trusted: `str::replace` with a string as its pattern. Its result depends on
/// the three strings only.
#[verifier::external_body]
fn str_replace(s: &str, from: &str, to: &str) -> (r: String)
    ensures
        r@ == replaced(s@, from@, to@),
{
    s.replace(from, to)
}

/// Trusted: `str::split_whitespace`, its words collected in their order. They
/// depend on the string only.
#[verifier::external_body]
fn str_split_whitespace(s: &str) -> (r: Vec<String>)
    ensures
        string_views(r@) == whitespace_words(s@),
{
    s.split_whitespace().map(str::to_owned).collect()
}

/// Trusted: `str::split` with a string as its pattern, its parts collected in
/// their order. They depend on the two strings only.
#[verifier::external_body]
fn str_split(s: &str, separator: &str) -> (r: Vec<String>)
    ensures
        string_views(r@) == split_on(s@, separator@),
{
    s.split(separator).map(str::to_owned).collect()
}

/// One line of a stat file, taken apart.
#[derive(Clone, Debug, PartialEq, Eq)]
pub enum StatLine {
    /// A `new` line: a block begins.
    New { stat_type: String, name: String },
    /// A `data` line: a key and its value.
    Data { key: String, value: String },
    /// A `type` line.
    Type(String),
    /// A `using` line.
    Using(String),
    /// An empty line: the block so far is handed out.
    Blank,
    /// Any other line; it says nothing.
    Other,
    /// A `new` line with fewer than three words, or a `data` line without a
    /// value.
    Malformed,
}

/// What a `StatLine` holds.
pub enum LineModel {
    New { stat_type: Seq<char>, name: Seq<char> },
    Data { key: Seq<char>, value: Seq<char> },
    Type(Seq<char>),
    Using(Seq<char>),
    Blank,
    Other,
    Malformed,
}

impl View for StatLine {
    type V = LineModel;

    open spec fn view(&self) -> LineModel {
        match self {
            StatLine::New { stat_type, name } => LineModel::New {
                stat_type: stat_type@,
                name: name@,
            },
            StatLine::Data { key, value } => LineModel::Data { key: key@, value: value@ },
            StatLine::Type(value) => LineModel::Type(value@),
            StatLine::Using(value) => LineModel::Using(value@),
            StatLine::Blank => LineModel::Blank,
            StatLine::Other => LineModel::Other,
            StatLine::Malformed => LineModel::Malformed,
        }
    }
}

/// `s` without its quotes.
pub open spec fn unquoted(s: Seq<char>) -> Seq<char> {
    replaced(s, "\""@, ""@)
}

/// What `line` says. A `new` line gives its second word as the type and its
/// third, unquoted, as the name. A `data` line loses its opening `data "`, is
/// split at each `" "`, and gives the first part as the key and the second,
/// unquoted, as the value. A `type` or `using` line gives what is left of it
/// without its opening and its quotes.
pub open spec fn line_of(line: Seq<char>) -> LineModel {
    if is_prefix("new "@, line) {
        if whitespace_words(line).len() < 3 {
            LineModel::Malformed
        } else {
            LineModel::New {
                stat_type: whitespace_words(line)[1],
                name: unquoted(whitespace_words(line)[2]),
            }
        }
    } else if is_prefix("data "@, line) {
        if split_on(replaced(line, "data \""@, ""@), "\" \""@).len() < 2 {
            LineModel::Malformed
        } else {
            LineModel::Data {
                key: split_on(replaced(line, "data \""@, ""@), "\" \""@)[0],
                value: unquoted(split_on(replaced(line, "data \""@, ""@), "\" \""@)[1]),
            }
        }
    } else if is_prefix("type "@, line) {
        LineModel::Type(unquoted(replaced(line, "type \""@, ""@)))
    } else if is_prefix("using "@, line) {
        LineModel::Using(unquoted(replaced(line, "using \""@, ""@)))
    } else if line.len() == 0 {
        LineModel::Blank
    } else {
        LineModel::Other
    }
}

/// The block `stat` after `line`. A `new` line starts it afresh; the other
/// lines set one of its parts.
pub open spec fn after_line(stat: StatModel, line: LineModel) -> StatModel {
    match line {
        LineModel::New { stat_type, name } => StatModel { name, stat_type, ..StatModel::empty() },
        LineModel::Data { key, value } => StatModel { data: put(stat.data, key, value), ..stat },
        LineModel::Type(value) => StatModel { type_value: value, ..stat },
        LineModel::Using(value) => StatModel { using: value, ..stat },
        _ => stat,
    }
}

/// The blocks handed out so far and the block being read.
pub struct ParseState {
    pub stats: Seq<StatModel>,
    pub current: StatModel,
}

/// The state after the first `n` of `lines`, or the index of the first
/// malformed line among them. A blank line hands out a copy of the block
/// being read, which goes on being read.
pub open spec fn parsed(lines: Seq<Seq<char>>, n: nat) -> Result<ParseState, nat>
    decreases n,
{
    if n == 0 {
        Ok(ParseState { stats: Seq::empty(), current: StatModel::empty() })
    } else {
        match parsed(lines, (n - 1) as nat) {
            Err(at) => Err(at),
            Ok(state) => match line_of(lines[n - 1]) {
                LineModel::Malformed => Err((n - 1) as nat),
                LineModel::Blank => Ok(
                    ParseState { stats: state.stats.push(state.current), current: state.current },
                ),
                line => Ok(
                    ParseState { stats: state.stats, current: after_line(state.current, line) },
                ),
            },
        }
    }
}

/// The blocks that `lines` describe: those handed out at the blank lines, and
/// at the end the block being read.
pub open spec fn stats_of(lines: Seq<Seq<char>>) -> Result<Seq<StatModel>, nat> {
    match parsed(lines, lines.len()) {
        Err(at) => Err(at),
        Ok(state) => Ok(state.stats.push(state.current)),
    }
}

/// What each of `stats` holds.
pub open spec fn stat_models(stats: Seq<Stat>) -> Seq<StatModel> {
    Seq::new(stats.len(), |i: int| stats[i]@)
}

/// A malformed line among the first lines fails every longer text alike.
pub proof fn lemma_parsed_failure(lines: Seq<Seq<char>>, failed: nat, n: nat)
    requires
        parsed(lines, failed) is Err,
        failed <= n,
    ensures
        parsed(lines, n) == parsed(lines, failed),
    decreases n,
{
    if failed < n {
        lemma_parsed_failure(lines, failed, (n - 1) as nat);
    }
}

/// The line of a stat file that could not be read.
#[derive(Clone, Copy, Debug, PartialEq, Eq, Structural)]
pub struct StatError {
    /// The index of the line, from 0.
    pub line: usize,
}

/// The two of `items` that stand at `first` and at `first + 1`, where it has
/// both.
pub fn pair_at(items: &Vec<String>, first: usize) -> (r: Option<(String, String)>)
    ensures
        r is Some == (first + 1 < items@.len()),
        r matches Some(pair) ==> pair.0@ == string_views(items@)[first as int] && pair.1@
            == string_views(items@)[first + 1],
{
    if first < items.len() && 1 < items.len() - first {
        Some((items[first].clone(), items[first + 1].clone()))
    } else {
        None
    }
}

/// Takes one line of a stat file apart.
pub fn classify_line(line: &str) -> (r: StatLine)
    ensures
        r@ == line_of(line@),
{
    if str_starts_with(line, "new ") {
        match pair_at(&str_split_whitespace(line), 1) {
            Some((stat_type, name)) => StatLine::New {
                stat_type,
                name: str_replace(name.as_str(), "\"", ""),
            },
            None => StatLine::Malformed,
        }
    } else if str_starts_with(line, "data ") {
        match pair_at(&str_split(str_replace(line, "data \"", "").as_str(), "\" \""), 0) {
            Some((key, value)) => StatLine::Data {
                key,
                value: str_replace(value.as_str(), "\"", ""),
            },
            None => StatLine::Malformed,
        }
    } else if str_starts_with(line, "type ") {
        StatLine::Type(str_replace(str_replace(line, "type \"", "").as_str(), "\"", ""))
    } else if str_starts_with(line, "using ") {
        StatLine::Using(str_replace(str_replace(line, "using \"", "").as_str(), "\"", ""))
    } else if line.is_empty() {
        StatLine::Blank
    } else {
        StatLine::Other
    }
}

impl Stat {
    /// Takes in what `line` says of the block.
    pub fn apply(&mut self, line: StatLine)
        ensures
            final(self)@ == after_line(old(self)@, line@),
            old(self).wf() ==> final(self).wf(),
    {
        match line {
            StatLine::New { stat_type, name } => {
                self.name = name;
                self.stat_type = stat_type;
                self.type_value = String::new();
                self.using = String::new();
                self.data = Vec::new();
                assert(pair_models(self.data@) =~= Seq::empty());
            },
            StatLine::Data { key, value } => {
                self.insert(key, value);
            },
            StatLine::Type(value) => {
                self.type_value = value;
            },
            StatLine::Using(value) => {
                self.using = value;
            },
            _ => {},
        }
    }
}

/// Reads the blocks that the lines of a stat file describe. A malformed line
/// fails the whole text and is named by its index.
pub fn parse_stat_file(lines: &Vec<String>) -> (r: Result<Vec<Stat>, StatError>)
    ensures
        match r {
            Ok(stats) => stats_of(string_views(lines@)) == Ok::<Seq<StatModel>, nat>(
                stat_models(stats@),
            ) && forall|i: int| 0 <= i < stats@.len() ==> (#[trigger] stats@[i]).wf(),
            Err(e) => stats_of(string_views(lines@)) == Err::<Seq<StatModel>, nat>(e.line as nat),
        },
{
    let mut stats: Vec<Stat> = Vec::new();
    let mut current = Stat::new();
    let mut i: usize = 0;
    assert(stat_models(stats@) =~= Seq::empty());
    while i < lines.len()
        invariant
            i <= lines@.len(),
            current.wf(),
            forall|k: int| 0 <= k < stats@.len() ==> (#[trigger] stats@[k]).wf(),
            parsed(string_views(lines@), i as nat) == Ok::<ParseState, nat>(
                ParseState { stats: stat_models(stats@), current: current@ },
            ),
        decreases lines@.len() - i,
    {
        let ghost before = stats@;
        assert(string_views(lines@)[i as int] == lines@[i as int]@);
        match classify_line(lines[i].as_str()) {
            StatLine::Malformed => {
                proof {
                    lemma_parsed_failure(string_views(lines@), (i + 1) as nat, lines@.len());
                }
                return Err(StatError { line: i });
            },
            StatLine::Blank => {
                stats.push(current.snapshot());
                assert(stat_models(stats@) =~= stat_models(before).push(current@));
            },
            line => {
                current.apply(line);
            },
        }
        i = i + 1;
    }
    let ghost before = stats@;
    stats.push(current);
    assert(stat_models(stats@) =~= stat_models(before).push(current@));
    Ok(stats)
}

} // verus!
