//! The line commands of the Kademlia console: `GET key`, `GET_PROVIDERS key`,
//! `PUT key value` and `PUT_PROVIDER key`, fields separated by single spaces.
use vstd::prelude::*;
use vstd::string::StringSliceAdditionalSpecFns;

verus! {

/// The space byte that separates fields.
pub const SPACE: u8 = 32;

/// End of the field starting at `i`: the next space at or after `i`, or the
/// end of the line.
pub open spec fn field_end(s: Seq<u8>, i: int) -> int
    decreases s.len() - i,
{
    if i >= s.len() || s[i] == SPACE {
        i
    } else {
        field_end(s, i + 1)
    }
}

pub proof fn lemma_field_end(s: Seq<u8>, i: int)
    requires
        0 <= i <= s.len(),
    ensures
        i <= field_end(s, i) <= s.len(),
        field_end(s, i) < s.len() ==> s[field_end(s, i)] == SPACE,
        forall|j: int| i <= j < field_end(s, i) ==> s[j] != SPACE,
    decreases s.len() - i,
{
    if i < s.len() && s[i] != SPACE {
        lemma_field_end(s, i + 1);
    }
}

/// The command word: the first field.
pub open spec fn word_field(s: Seq<u8>) -> Seq<u8> {
    s.subrange(0, field_end(s, 0))
}

/// Whether there is a second field.
pub open spec fn has_key_field(s: Seq<u8>) -> bool {
    field_end(s, 0) < s.len()
}

/// The second field.
pub open spec fn key_field(s: Seq<u8>) -> Seq<u8> {
    let a = field_end(s, 0) + 1;
    s.subrange(a, field_end(s, a))
}

/// Whether there is a third field.
pub open spec fn has_value_field(s: Seq<u8>) -> bool {
    has_key_field(s) && field_end(s, field_end(s, 0) + 1) < s.len()
}

/// The third field.
pub open spec fn value_field(s: Seq<u8>) -> Seq<u8> {
    let b = field_end(s, field_end(s, 0) + 1) + 1;
    s.subrange(b, field_end(s, b))
}

/// `GET`.
pub open spec fn word_get() -> Seq<u8> {
    seq![71u8, 69u8, 84u8]
}

/// `GET_PROVIDERS`.
pub open spec fn word_get_providers() -> Seq<u8> {
    seq![71u8, 69u8, 84u8, 95u8, 80u8, 82u8, 79u8, 86u8, 73u8, 68u8, 69u8, 82u8, 83u8]
}

/// `PUT`.
pub open spec fn word_put() -> Seq<u8> {
    seq![80u8, 85u8, 84u8]
}

/// `PUT_PROVIDER`.
pub open spec fn word_put_provider() -> Seq<u8> {
    seq![80u8, 85u8, 84u8, 95u8, 80u8, 82u8, 79u8, 86u8, 73u8, 68u8, 69u8, 82u8]
}

#[derive(Debug, Clone, Copy, PartialEq, Eq, Structural)]
pub enum InputLineError {
    /// The command needs a key.
    ExpectedKey,
    /// `PUT` needs a value.
    ExpectedValue,
    /// The first field is none of the four commands.
    UnknownCommand,
}

/// A parsed console command.
#[derive(Debug)]
pub enum KadCommand {
    Get { key: Vec<u8> },
    GetProviders { key: Vec<u8> },
    Put { key: Vec<u8>, value: Vec<u8> },
    PutProvider { key: Vec<u8> },
}

/// A command as the mathematical value it denotes.
pub enum CommandView {
    Get(Seq<u8>),
    GetProviders(Seq<u8>),
    Put(Seq<u8>, Seq<u8>),
    PutProvider(Seq<u8>),
}

impl View for KadCommand {
    type V = CommandView;

    open spec fn view(&self) -> CommandView {
        match self {
            KadCommand::Get { key } => CommandView::Get(key@),
            KadCommand::GetProviders { key } => CommandView::GetProviders(key@),
            KadCommand::Put { key, value } => CommandView::Put(key@, value@),
            KadCommand::PutProvider { key } => CommandView::PutProvider(key@),
        }
    }
}

/// What a line means.
pub open spec fn parse_line_spec(s: Seq<u8>) -> Result<CommandView, InputLineError> {
    let w = word_field(s);
    if w == word_get() {
        if has_key_field(s) {
            Ok(CommandView::Get(key_field(s)))
        } else {
            Err(InputLineError::ExpectedKey)
        }
    } else if w == word_get_providers() {
        if has_key_field(s) {
            Ok(CommandView::GetProviders(key_field(s)))
        } else {
            Err(InputLineError::ExpectedKey)
        }
    } else if w == word_put() {
        if !has_key_field(s) {
            Err(InputLineError::ExpectedKey)
        } else if !has_value_field(s) {
            Err(InputLineError::ExpectedValue)
        } else {
            Ok(CommandView::Put(key_field(s), value_field(s)))
        }
    } else if w == word_put_provider() {
        if has_key_field(s) {
            Ok(CommandView::PutProvider(key_field(s)))
        } else {
            Err(InputLineError::ExpectedKey)
        }
    } else {
        Err(InputLineError::UnknownCommand)
    }
}

/// The end of the field starting at `i`.
fn find_field_end(s: &[u8], i: usize) -> (r: usize)
    requires
        i <= s@.len(),
    ensures
        r == field_end(s@, i as int),
{
    proof {
        lemma_field_end(s@, i as int);
    }
    let mut j: usize = i;
    while j < s.len() && s[j] != SPACE
        invariant
            i <= j <= s@.len(),
            field_end(s@, i as int) == field_end(s@, j as int),
        decreases s@.len() - j,
    {
        j += 1;
    }
    j
}

/// Whether `s[start..end]` is exactly `word`.
fn field_is(s: &[u8], start: usize, end: usize, word: &[u8]) -> (r: bool)
    requires
        start <= end <= s@.len(),
    ensures
        r == (s@.subrange(start as int, end as int) == word@),
{
    if end - start != word.len() {
        return false;
    }
    let mut k: usize = 0;
    while k < word.len()
        invariant
            0 <= k <= word@.len(),
            end - start == word@.len(),
            start <= end <= s@.len(),
            forall|j: int| 0 <= j < k ==> s@[start + j] == word@[j],
        decreases word@.len() - k,
    {
        if s[start + k] != word[k] {
            return false;
        }
        k += 1;
    }
    proof {
        assert(s@.subrange(start as int, end as int) =~= word@);
    }
    true
}

/// Reads a console line.
pub fn parse_input_line(line: &str) -> (r: Result<KadCommand, InputLineError>)
    ensures
        match r {
            Ok(c) => parse_line_spec(line.spec_bytes()) == Ok::<CommandView, InputLineError>(c@),
            Err(e) => parse_line_spec(line.spec_bytes()) == Err::<CommandView, InputLineError>(e),
        },
{
    let s: &[u8] = line.as_bytes();
    let ghost b = s@;
    let get: [u8; 3] = [71u8, 69u8, 84u8];
    let get_providers: [u8; 13] = [71u8, 69u8, 84u8, 95u8, 80u8, 82u8, 79u8, 86u8, 73u8, 68u8, 69u8, 82u8, 83u8];
    let put: [u8; 3] = [80u8, 85u8, 84u8];
    let put_provider: [u8; 12] = [80u8, 85u8, 84u8, 95u8, 80u8, 82u8, 79u8, 86u8, 73u8, 68u8, 69u8, 82u8];
    proof {
        assert(get@ =~= word_get());
        assert(get_providers@ =~= word_get_providers());
        assert(put@ =~= word_put());
        assert(put_provider@ =~= word_put_provider());
        lemma_field_end(b, 0);
    }
    let e0 = find_field_end(s, 0);
    let is_get = field_is(s, 0, e0, get.as_slice());
    let is_get_providers = field_is(s, 0, e0, get_providers.as_slice());
    let is_put = field_is(s, 0, e0, put.as_slice());
    let is_put_provider = field_is(s, 0, e0, put_provider.as_slice());
    if !is_get && !is_get_providers && !is_put && !is_put_provider {
        return Err(InputLineError::UnknownCommand);
    }
    if e0 >= s.len() {
        return Err(InputLineError::ExpectedKey);
    }
    proof {
        lemma_field_end(b, e0 + 1);
    }
    let e1 = find_field_end(s, e0 + 1);
    let key = crate::arrays::vec_from_range(s, e0 + 1, e1);
    if is_get {
        return Ok(KadCommand::Get { key });
    }
    if is_get_providers {
        return Ok(KadCommand::GetProviders { key });
    }
    if is_put_provider {
        return Ok(KadCommand::PutProvider { key });
    }
    if e1 >= s.len() {
        return Err(InputLineError::ExpectedValue);
    }
    proof {
        lemma_field_end(b, e1 + 1);
    }
    let e2 = find_field_end(s, e1 + 1);
    let value = crate::arrays::vec_from_range(s, e1 + 1, e2);
    Ok(KadCommand::Put { key, value })
}

} // verus!
