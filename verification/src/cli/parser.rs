//! # Parser
//! - add vault -n example
//! - add vault --name=example
//! - add password -d example.com -u example -l 40
//! - add password --domain=example.com --username=example --length=40
//! - get password -d example.com
//! - get password -d example.com -u example
//! - get password -d example.com -u example -l 40
//! - get password --domain=example.com --username=example --length=40

use vstd::prelude::*;
use vstd::string::StringExecFns;

verus! {

/// The action we want to perform on a resource.
#[derive(Debug, Clone, Copy, PartialEq, Eq, Structural)]
pub enum Operation {
    Add,
    Get,
}

/// The objects are can interact with.
#[derive(Debug, Clone, Copy, PartialEq, Eq, Structural)]
pub enum Resource {
    Password,
    Vault,
}

/// Options are specified as `-key vaule` or `--key=value`
#[derive(Hash, Eq, PartialEq, Debug, Clone, Copy, Structural)]
pub enum ParamName {
    VaultName,
    DomainName,
    UserName,
    Length,
}

/// The values of the options of a command, by the name of the option.
#[derive(Debug, PartialEq, Eq)]
pub struct Params {
    vault_name: Option<String>,
    domain_name: Option<String>,
    user_name: Option<String>,
    length: Option<String>,
}

/// Users specify a command: <Operation> <Resource> [<Param>]
/// where param is either: `-key vaule` or `--key=value`
#[derive(Debug, PartialEq, Eq)]
pub struct Command {
    pub op: Operation,
    pub on: Resource,
    pub params: Params,
}

/// What a command says: the operation, the resource, and the text of each
/// option that it gives.
pub ghost struct CommandView {
    pub op: Operation,
    pub on: Resource,
    pub params: Map<ParamName, Seq<char>>,
}

/// The message for an input that does not start with an operation.
pub const EXPECTED_OPERATION: &'static str = "Expected an operation: add or get";

/// The message for an input that names no resource after the operation.
pub const EXPECTED_RESOURCE: &'static str = "Expected a resource: password or vault";

// ---------------------------------- Grammar ----------------------------------
/// The position after `word`, where `word` stands at `pos` in `s`.
pub open spec fn literal_at(s: Seq<char>, pos: int, word: Seq<char>) -> Option<int> {
    if 0 <= pos && pos + word.len() <= s.len() && s.subrange(pos, pos + word.len()) == word {
        Some(pos + word.len())
    } else {
        None
    }
}

/// The position of the first character at or after `pos` that is no space.
pub open spec fn space_at(s: Seq<char>, pos: int) -> int
    decreases s.len() - pos,
{
    if 0 <= pos < s.len() && s[pos] == ' ' {
        space_at(s, pos + 1)
    } else {
        pos
    }
}

/// The position of the first character at or after `pos` that is a space,
/// or the end of `s`.
pub open spec fn value_end(s: Seq<char>, pos: int) -> int
    decreases s.len() - pos,
{
    if 0 <= pos < s.len() && s[pos] != ' ' {
        value_end(s, pos + 1)
    } else {
        pos
    }
}

/// The value that starts at `pos`: the characters up to the next space, of
/// which there is at least one; with the position after it.
pub open spec fn value_at(s: Seq<char>, pos: int) -> Option<(Seq<char>, int)> {
    if value_end(s, pos) > pos {
        Some((s.subrange(pos, value_end(s, pos)), value_end(s, pos)))
    } else {
        None
    }
}

/// The value of an option in its long form at `pos`: `--name=value`.
pub open spec fn param_long_at(s: Seq<char>, pos: int, name: Seq<char>) -> Option<
    (Seq<char>, int),
> {
    match literal_at(s, pos, "--"@) {
        Some(after_dashes) => match literal_at(s, after_dashes, name) {
            Some(after_name) => match literal_at(s, after_name, "="@) {
                Some(after_equals) => value_at(s, after_equals),
                None => None,
            },
            None => None,
        },
        None => None,
    }
}

/// The value of an option in its short form at `pos`: `-n value`, with one
/// space or more before the value.
pub open spec fn param_short_at(s: Seq<char>, pos: int, name: Seq<char>) -> Option<
    (Seq<char>, int),
> {
    match literal_at(s, pos, "-"@) {
        Some(after_dash) => match literal_at(s, after_dash, name) {
            Some(after_name) => if after_name < s.len() && s[after_name] == ' ' {
                value_at(s, space_at(s, after_name))
            } else {
                None
            },
            None => None,
        },
        None => None,
    }
}

/// The first of two outcomes that is one.
pub open spec fn or_else<T>(first: Option<T>, second: Option<T>) -> Option<T> {
    if first is Some {
        first
    } else {
        second
    }
}

/// A value that was found, under the name of its option.
pub open spec fn named(name: ParamName, found: Option<(Seq<char>, int)>) -> Option<
    ((ParamName, Seq<char>), int),
> {
    match found {
        Some((value, end)) => Some(((name, value), end)),
        None => None,
    }
}

/// The option at `pos`, in the first form that fits, with the spaces around
/// it: the long forms come before the short ones.
pub open spec fn param_at(s: Seq<char>, pos: int) -> Option<((ParamName, Seq<char>), int)> {
    let start = space_at(s, pos);
    let found = or_else(
        named(ParamName::VaultName, param_long_at(s, start, "name"@)),
        or_else(
            named(ParamName::DomainName, param_long_at(s, start, "domain"@)),
            or_else(
                named(ParamName::UserName, param_long_at(s, start, "username"@)),
                or_else(
                    named(ParamName::Length, param_long_at(s, start, "length"@)),
                    or_else(
                        named(ParamName::VaultName, param_short_at(s, start, "n"@)),
                        or_else(
                            named(ParamName::DomainName, param_short_at(s, start, "d"@)),
                            or_else(
                                named(ParamName::UserName, param_short_at(s, start, "u"@)),
                                named(ParamName::Length, param_short_at(s, start, "l"@)),
                            ),
                        ),
                    ),
                ),
            ),
        ),
    );
    match found {
        Some((item, end)) => Some((item, space_at(s, end))),
        None => None,
    }
}

/// The options from `pos` on, as many as follow one another.
pub open spec fn params_at(s: Seq<char>, pos: int) -> Seq<(ParamName, Seq<char>)>
    decreases s.len() - pos,
{
    match param_at(s, pos) {
        Some((item, next)) => if pos < next <= s.len() {
            seq![item] + params_at(s, next)
        } else {
            Seq::empty()
        },
        None => Seq::empty(),
    }
}

/// The operation at `pos`, with the spaces around it.
pub open spec fn operation_at(s: Seq<char>, pos: int) -> Option<(Operation, int)> {
    let start = space_at(s, pos);
    match literal_at(s, start, "add"@) {
        Some(end) => Some((Operation::Add, space_at(s, end))),
        None => match literal_at(s, start, "get"@) {
            Some(end) => Some((Operation::Get, space_at(s, end))),
            None => None,
        },
    }
}

/// The resource at `pos`, with the spaces around it.
pub open spec fn resource_at(s: Seq<char>, pos: int) -> Option<(Resource, int)> {
    let start = space_at(s, pos);
    match literal_at(s, start, "password"@) {
        Some(end) => Some((Resource::Password, space_at(s, end))),
        None => match literal_at(s, start, "vault"@) {
            Some(end) => Some((Resource::Vault, space_at(s, end))),
            None => None,
        },
    }
}

/// The values by name: where a name comes twice, its last value counts.
pub open spec fn collected(items: Seq<(ParamName, Seq<char>)>) -> Map<ParamName, Seq<char>>
    decreases items.len(),
{
    if items.len() == 0 {
        Map::empty()
    } else {
        collected(items.drop_last()).insert(items.last().0, items.last().1)
    }
}

/// What the text of a command says, or the message for a text that is no
/// command. What follows the last option is not read.
pub open spec fn command_of(s: Seq<char>) -> Result<CommandView, Seq<char>> {
    match operation_at(s, 0) {
        Some((op, after_operation)) => match resource_at(s, after_operation) {
            Some((on, after_resource)) => Ok(
                CommandView { op, on, params: collected(params_at(s, after_resource)) },
            ),
            None => Err(EXPECTED_RESOURCE@),
        },
        None => Err(EXPECTED_OPERATION@),
    }
}

/// The arguments in one text, with a space between each two of them.
pub open spec fn joined(args: Seq<Seq<char>>) -> Seq<char>
    decreases args.len(),
{
    if args.len() == 0 {
        Seq::empty()
    } else if args.len() == 1 {
        args[0]
    } else {
        joined(args.drop_last()) + seq![' '] + args.last()
    }
}

/// The text of each argument.
pub open spec fn texts(args: Seq<String>) -> Seq<Seq<char>> {
    args.map_values(|arg: String| arg@)
}

// ---------------------------------- Params -----------------------------------
impl View for Params {
    type V = Map<ParamName, Seq<char>>;

    closed spec fn view(&self) -> Map<ParamName, Seq<char>> {
        Map::new(
            |name: ParamName| self.slot(name) is Some,
            |name: ParamName| self.slot(name)->0@,
        )
    }
}

impl Params {
    /// The value that is kept for a name.
    spec fn slot(&self, name: ParamName) -> Option<String> {
        match name {
            ParamName::VaultName => self.vault_name,
            ParamName::DomainName => self.domain_name,
            ParamName::UserName => self.user_name,
            ParamName::Length => self.length,
        }
    }

    /// No values.
    pub fn new() -> (params: Params)
        ensures
            params@ == Map::<ParamName, Seq<char>>::empty(),
    {
        Params { vault_name: None, domain_name: None, user_name: None, length: None }
    }

    /// Keeps a value for a name, in place of the value that the name had.
    /// Returns the value that the name had.
    pub fn insert(&mut self, name: ParamName, value: String) -> (previous: Option<String>)
        ensures
            final(self)@ == old(self)@.insert(name, value@),
            match previous {
                Some(text) => old(self)@.contains_key(name) && old(self)@[name] == text@,
                None => !old(self)@.contains_key(name),
            },
    {
        let mut slot = Some(value);
        match name {
            ParamName::VaultName => std::mem::swap(&mut self.vault_name, &mut slot),
            ParamName::DomainName => std::mem::swap(&mut self.domain_name, &mut slot),
            ParamName::UserName => std::mem::swap(&mut self.user_name, &mut slot),
            ParamName::Length => std::mem::swap(&mut self.length, &mut slot),
        }
        slot
    }

    /// Returns the value that is kept for a name.
    pub fn get(&self, name: &ParamName) -> (value: Option<&String>)
        ensures
            match value {
                Some(text) => self@.contains_key(*name) && self@[*name] == text@,
                None => !self@.contains_key(*name),
            },
    {
        match name {
            ParamName::VaultName => self.vault_name.as_ref(),
            ParamName::DomainName => self.domain_name.as_ref(),
            ParamName::UserName => self.user_name.as_ref(),
            ParamName::Length => self.length.as_ref(),
        }
    }
}

impl View for Command {
    type V = CommandView;

    open spec fn view(&self) -> CommandView {
        CommandView { op: self.op, on: self.on, params: self.params@ }
    }
}

// ---------------------------------- Parsers ----------------------------------
/// The characters of a text.
fn chars_of(text: &str) -> (chars: Vec<char>)
    ensures
        chars@ == text@,
{
    let mut chars: Vec<char> = Vec::new();
    for c in it: text.chars()
        invariant
            it.seq() == text@,
            chars@ == it.seq().take(it.index() as int),
    {
        chars.push(c);
    }
    chars
}

/// Skips `word` where it stands at `pos`.
fn literal(input: &Vec<char>, pos: usize, word: &str) -> (next: Option<usize>)
    requires
        pos <= input@.len(),
    ensures
        match next {
            Some(end) => literal_at(input@, pos as int, word@) == Some(end as int) && pos <= end
                <= input@.len(),
            None => literal_at(input@, pos as int, word@) is None,
        },
{
    let wanted = chars_of(word);
    let n = wanted.len();
    if n > input.len() - pos {
        return None;
    }
    let mut i: usize = 0;
    while i < n
        invariant
            i <= n,
            n == wanted@.len(),
            wanted@ == word@,
            pos + n <= input.len(),
            input@.subrange(pos as int, pos + i) == wanted@.take(i as int),
        decreases n - i,
    {
        if input[pos + i] != wanted[i] {
            return None;
        }
        i += 1;
        assert(input@.subrange(pos as int, pos + i) == input@.subrange(pos as int, pos + i - 1).push(
            input@[pos + i - 1],
        ));
    }
    assert(wanted@.take(n as int) == wanted@);
    Some(pos + n)
}

/// Skips spaces: zero or more.
fn space(input: &Vec<char>, pos: usize) -> (next: usize)
    requires
        pos <= input@.len(),
    ensures
        next == space_at(input@, pos as int),
        pos <= next <= input@.len(),
{
    let mut next = pos;
    while next < input.len() && input[next] == ' '
        invariant
            pos <= next <= input@.len(),
            space_at(input@, pos as int) == space_at(input@, next as int),
        decreases input@.len() - next,
    {
        next += 1;
    }
    next
}

/// Reads a value: the characters up to the next space or the end of the
/// input, one or more.
fn value(input: &Vec<char>, pos: usize) -> (found: Option<(String, usize)>)
    requires
        pos <= input@.len(),
    ensures
        match found {
            Some((text, end)) => value_at(input@, pos as int) == Some((text@, end as int)) && pos
                < end <= input@.len(),
            None => value_at(input@, pos as int) is None,
        },
{
    let mut text = String::new();
    let mut end = pos;
    while end < input.len() && input[end] != ' '
        invariant
            pos <= end <= input@.len(),
            value_end(input@, pos as int) == value_end(input@, end as int),
            text@ == input@.subrange(pos as int, end as int),
        decreases input@.len() - end,
    {
        text.push(input[end]);
        end += 1;
        assert(input@.subrange(pos as int, end as int) == input@.subrange(pos as int, end - 1).push(
            input@[end - 1],
        ));
    }
    if end > pos {
        Some((text, end))
    } else {
        None
    }
}

/// Reads an option in its long form: `--name=value`.
fn param_long(input: &Vec<char>, pos: usize, name: &str) -> (found: Option<(String, usize)>)
    requires
        pos <= input@.len(),
    ensures
        match found {
            Some((text, end)) => param_long_at(input@, pos as int, name@) == Some(
                (text@, end as int),
            ) && pos < end <= input@.len(),
            None => param_long_at(input@, pos as int, name@) is None,
        },
{
    let after_dashes = match literal(input, pos, "--") {
        Some(end) => end,
        None => { return None; },
    };
    let after_name = match literal(input, after_dashes, name) {
        Some(end) => end,
        None => { return None; },
    };
    let after_equals = match literal(input, after_name, "=") {
        Some(end) => end,
        None => { return None; },
    };
    value(input, after_equals)
}

/// Reads an option in its short form: `-n value`.
fn param_short(input: &Vec<char>, pos: usize, name: &str) -> (found: Option<(String, usize)>)
    requires
        pos <= input@.len(),
    ensures
        match found {
            Some((text, end)) => param_short_at(input@, pos as int, name@) == Some(
                (text@, end as int),
            ) && pos < end <= input@.len(),
            None => param_short_at(input@, pos as int, name@) is None,
        },
{
    let after_dash = match literal(input, pos, "-") {
        Some(end) => end,
        None => { return None; },
    };
    let after_name = match literal(input, after_dash, name) {
        Some(end) => end,
        None => { return None; },
    };
    if after_name < input.len() && input[after_name] == ' ' {
        let start = space(input, after_name);
        value(input, start)
    } else {
        None
    }
}

/// Gives a value that was found the name of its option.
fn name_it(name: ParamName, found: Option<(String, usize)>) -> (item: Option<
    ((ParamName, String), usize),
>)
    ensures
        match item {
            Some(((n, text), end)) => n == name && found == Some((text, end)),
            None => found is None,
        },
{
    match found {
        Some((text, end)) => Some(((name, text), end)),
        None => None,
    }
}

/// The text of an option that was read.
pub open spec fn item_view(item: Option<((ParamName, String), usize)>) -> Option<
    ((ParamName, Seq<char>), int),
> {
    match item {
        Some(((name, text), end)) => Some(((name, text@), end as int)),
        None => None,
    }
}

/// Reads an option in one of its forms, with the spaces around it.
fn param(input: &Vec<char>, pos: usize) -> (found: Option<((ParamName, String), usize)>)
    requires
        pos <= input@.len(),
    ensures
        item_view(found) == param_at(input@, pos as int),
        found matches Some((_, end)) ==> pos < end <= input@.len(),
{
    let start = space(input, pos);
    let mut found = name_it(ParamName::VaultName, param_long(input, start, "name"));
    if found.is_none() {
        found = name_it(ParamName::DomainName, param_long(input, start, "domain"));
    }
    if found.is_none() {
        found = name_it(ParamName::UserName, param_long(input, start, "username"));
    }
    if found.is_none() {
        found = name_it(ParamName::Length, param_long(input, start, "length"));
    }
    if found.is_none() {
        found = name_it(ParamName::VaultName, param_short(input, start, "n"));
    }
    if found.is_none() {
        found = name_it(ParamName::DomainName, param_short(input, start, "d"));
    }
    if found.is_none() {
        found = name_it(ParamName::UserName, param_short(input, start, "u"));
    }
    if found.is_none() {
        found = name_it(ParamName::Length, param_short(input, start, "l"));
    }
    match found {
        Some((item, end)) => Some((item, space(input, end))),
        None => None,
    }
}

/// The text of each option that was read.
pub open spec fn items_view(items: Seq<(ParamName, String)>) -> Seq<(ParamName, Seq<char>)> {
    items.map_values(|item: (ParamName, String)| (item.0, item.1@))
}

/// Reads the options that follow one another.
fn params(input: &Vec<char>, pos: usize) -> (items: Vec<(ParamName, String)>)
    requires
        pos <= input@.len(),
    ensures
        items_view(items@) == params_at(input@, pos as int),
{
    let mut items: Vec<(ParamName, String)> = Vec::new();
    let mut next = pos;
    loop
        invariant
            pos <= next <= input@.len(),
            params_at(input@, pos as int) == items_view(items@) + params_at(input@, next as int),
        ensures
            params_at(input@, pos as int) == items_view(items@),
        decreases input@.len() - next,
    {
        match param(input, next) {
            Some((item, end)) => {
                let ghost before = items@;
                let ghost read = (item.0, item.1@);
                items.push(item);
                proof {
                    assert(params_at(input@, next as int) == seq![read] + params_at(
                        input@,
                        end as int,
                    ));
                    assert(items_view(before) + (seq![read] + params_at(input@, end as int))
                        =~= items_view(items@) + params_at(input@, end as int));
                }
                next = end;
            },
            None => {
                assert(items_view(items@) + Seq::<(ParamName, Seq<char>)>::empty() =~= items_view(
                    items@,
                ));
                break ;
            },
        }
    }
    items
}

/// Reads the operation, with the spaces around it.
fn operation(input: &Vec<char>, pos: usize) -> (found: Option<(Operation, usize)>)
    requires
        pos <= input@.len(),
    ensures
        match found {
            Some((op, end)) => operation_at(input@, pos as int) == Some((op, end as int)) && pos
                <= end <= input@.len(),
            None => operation_at(input@, pos as int) is None,
        },
{
    let start = space(input, pos);
    match literal(input, start, "add") {
        Some(end) => Some((Operation::Add, space(input, end))),
        None => match literal(input, start, "get") {
            Some(end) => Some((Operation::Get, space(input, end))),
            None => None,
        },
    }
}

/// Reads the resource, with the spaces around it.
fn resource(input: &Vec<char>, pos: usize) -> (found: Option<(Resource, usize)>)
    requires
        pos <= input@.len(),
    ensures
        match found {
            Some((on, end)) => resource_at(input@, pos as int) == Some((on, end as int)) && pos
                <= end <= input@.len(),
            None => resource_at(input@, pos as int) is None,
        },
{
    let start = space(input, pos);
    match literal(input, start, "password") {
        Some(end) => Some((Resource::Password, space(input, end))),
        None => match literal(input, start, "vault") {
            Some(end) => Some((Resource::Vault, space(input, end))),
            None => None,
        },
    }
}

/// Parses the text of a command: an operation, a resource, and options.
///
/// A text without an operation, or without a resource after it, is refused
/// with a message. What follows the last option is not read.
pub fn command(input: &str) -> (parsed: Result<Command, String>)
    ensures
        match parsed {
            Ok(cmd) => command_of(input@) == Ok::<CommandView, Seq<char>>(cmd@),
            Err(message) => command_of(input@) == Err::<CommandView, Seq<char>>(message@),
        },
{
    let input = chars_of(input);
    let (op, after_operation) = match operation(&input, 0) {
        Some(found) => found,
        None => { return Err(EXPECTED_OPERATION.to_owned()); },
    };
    let (on, after_resource) = match resource(&input, after_operation) {
        Some(found) => found,
        None => { return Err(EXPECTED_RESOURCE.to_owned()); },
    };
    let ps = params(&input, after_resource);
    let ghost all = items_view(ps@);
    let mut params = Params::new();
    for item in it: ps
        invariant
            items_view(it.seq()) == all,
            params@ == collected(all.take(it.index() as int)),
    {
        let (k, v) = item;
        proof {
            let done = all.take(it.index() + 1);
            assert(done.drop_last() =~= all.take(it.index() as int));
        }
        params.insert(k, v);
    }
    assert(all.take(all.len() as int) =~= all);
    Ok(Command { op, on, params })
}

/// Parses a slice of strings into a Command
pub fn parse(input: &[String]) -> (parsed: Result<Command, String>)
    ensures
        match parsed {
            Ok(cmd) => command_of(joined(texts(input@))) == Ok::<CommandView, Seq<char>>(cmd@),
            Err(message) => command_of(joined(texts(input@))) == Err::<CommandView, Seq<char>>(
                message@,
            ),
        },
{
    let mut text = String::new();
    let mut i: usize = 0;
    while i < input.len()
        invariant
            i <= input@.len(),
            text@ == joined(texts(input@).take(i as int)),
        decreases input@.len() - i,
    {
        if i > 0 {
            text.append(" ");
        }
        text.append(input[i].as_str());
        i += 1;
        proof {
            reveal_strlit(" ");
            let done = texts(input@).take(i as int);
            assert(done.drop_last() =~= texts(input@).take(i - 1));
        }
    }
    assert(texts(input@).take(i as int) =~= texts(input@));
    command(text.as_str())
}

} // verus!
