//! Paths, checksums and content: the parts of the file work that compute.
use vstd::prelude::*;
use vstd::slice::*;
use vstd::string::*;
use vstd::utf8::valid_utf8;
use crate::err::Error;

verus! {

/// The readable form of bytes that are meant to be text: valid parts stay,
/// each invalid part becomes the replacement character.
pub uninterp spec fn lossy_text(bytes: Seq<u8>) -> Seq<char>;

/// `core::str::from_utf8`: the bytes as text, where they are valid UTF-8.
/// The result is `Some` exactly for valid UTF-8, and the text then has
/// these very bytes.
#[verifier::external_body]
fn text_of(bytes: &[u8]) -> (text: Option<&str>)
    ensures
        text is Some <==> valid_utf8(bytes@),
        text matches Some(t) ==> t.spec_bytes() == bytes@,
{
    core::str::from_utf8(bytes).ok()
}

/// `String::from_utf8_lossy`: the readable form of the bytes.  The contract
/// gives it a name and claims only that it depends on the bytes alone.
#[verifier::external_body]
pub(crate) fn lossy_of(bytes: &[u8]) -> (text: String)
    ensures
        text@ == lossy_text(bytes@),
{
    String::from_utf8_lossy(bytes).into_owned()
}

/// The error for a path that is not valid Unicode.
pub fn unicode_error(path: &[u8]) -> (error: Error)
    ensures
        error@ == (crate::err::ErrorView::UnicodeError { lossy: lossy_text(path@) }),
{
    Error::UnicodeError { lossy: lossy_of(path) }
}

/// The decimal numeral of `n` in ASCII, without leading zeros.
pub open spec fn decimal(n: nat) -> Seq<u8>
    decreases n,
{
    if n < 10 {
        seq![(48 + n) as u8]
    } else {
        decimal(n / 10).push((48 + n % 10) as u8)
    }
}

/// The `n`-th name that is tried for the temporary sibling of `path`: the
/// path, an underscore, and `n` in decimal.
pub open spec fn temp_candidate(path: Seq<u8>, n: nat) -> Seq<u8> {
    path + seq![95u8] + decimal(n)
}

/// Appends the decimal numeral of `n` to `out`.
fn push_decimal(out: &mut Vec<u8>, n: u32)
    ensures
        final(out)@ == old(out)@ + decimal(n as nat),
    decreases n,
{
    if n >= 10 {
        push_decimal(out, n / 10);
    }
    let digit: u8 = (n % 10) as u8;
    out.push(48 + digit);
    assert(out@ =~= old(out)@ + decimal(n as nat));
}

/// The largest number that is tried for a temporary name.
pub const TEMP_NAME_LAST: u32 = 65535;

/// The `attempt`-th candidate for the temporary sibling of `path`.
///
/// A path that is not valid Unicode has no temporary name: the result is
/// then the Unicode error with the readable form of the path.
pub fn temp_name(path: &[u8], attempt: u32) -> (name: Result<Vec<u8>, Error>)
    ensures
        match name {
            Ok(candidate) => valid_utf8(path@) && candidate@ == temp_candidate(
                path@,
                attempt as nat,
            ),
            Err(error) => !valid_utf8(path@) && error@ == (crate::err::ErrorView::UnicodeError {
                lossy: lossy_text(path@),
            }),
        },
{
    match text_of(path) {
        None => Err(unicode_error(path)),
        Some(_) => {
            let mut candidate = slice_to_vec(path);
            candidate.push(95u8);
            push_decimal(&mut candidate, attempt);
            assert(candidate@ =~= temp_candidate(path@, attempt as nat));
            Ok(candidate)
        },
    }
}

/// Whether `k` is the position of the first zero byte of `path`.
pub open spec fn first_nul_at(path: Seq<u8>, k: int) -> bool {
    &&& 0 <= k < path.len()
    &&& path[k] == 0
    &&& forall|j: int| 0 <= j < k ==> path[j] != 0
}

/// Whether `path` can be handed to the operating system as a C string: the
/// error names the first zero byte, and a path without one passes.
pub fn c_path_check(path: &[u8]) -> (checked: Result<(), Error>)
    ensures
        match checked {
            Ok(_) => forall|j: int| 0 <= j < path@.len() ==> path@[j] != 0,
            Err(error) => error@ matches crate::err::ErrorView::NulError { position }
                && first_nul_at(path@, position as int),
        },
{
    let mut k: usize = 0;
    while k < path.len()
        invariant
            k <= path.len(),
            forall|j: int| 0 <= j < k ==> path@[j] != 0,
        decreases path.len() - k,
    {
        if path[k] == 0 {
            return Err(Error::NulError { position: k });
        }
        k += 1;
    }
    Ok(())
}

/// Judges what `chown` returned: zero is success, anything else the
/// unspecified error that names the call.
pub fn chown_result(status: i32) -> (judged: Result<(), Error>)
    ensures
        status == 0 <==> judged is Ok,
        judged matches Err(error) ==> error@ == crate::err::ErrorView::Unspecified(
            "Error in libc::chown"@,
        ),
{
    if status == 0 {
        Ok(())
    } else {
        Err(Error::Unspecified("Error in libc::chown".to_owned()))
    }
}

/// The CRC-64 (ECMA polynomial, as used by XZ) of a byte stream.
pub uninterp spec fn crc64_of(stream: Seq<u8>) -> u64;

/// `crc64fast::Digest`: a CRC-64 computation in progress.  Nothing is known
/// of its inside; what was written into it is spoken of through
/// [`digest_stream`].
#[verifier::external_type_specification]
#[verifier::external_body]
pub struct ExDigest(crc64fast::Digest);

/// The bytes that were written into a digest since it was made, in order.
pub uninterp spec fn digest_stream(digest: crc64fast::Digest) -> Seq<u8>;

/// `crc64fast::Digest::new`: a digest into which nothing was written.
#[verifier::external_body]
fn digest_new() -> (digest: crc64fast::Digest)
    ensures
        digest_stream(digest) == Seq::<u8>::empty(),
{
    crc64fast::Digest::new()
}

/// `crc64fast::Digest::write`: the bytes are added to the end of what was
/// written before.  Only the concatenation counts: the checksum of a digest
/// does not depend on how the stream was cut into writes.
#[verifier::external_body]
fn digest_write(digest: &mut crc64fast::Digest, bytes: &[u8])
    ensures
        digest_stream(*final(digest)) == digest_stream(*old(digest)) + bytes@,
{
    digest.write(bytes)
}

/// `crc64fast::Digest::sum64`: the CRC-64 of what was written so far.  The
/// digest starts from all ones and the sum is its complement, so the sum of
/// nothing is zero.
#[verifier::external_body]
fn digest_sum64(digest: &crc64fast::Digest) -> (sum: u64)
    ensures
        sum == crc64_of(digest_stream(*digest)),
        digest_stream(*digest).len() == 0 ==> sum == 0,
{
    digest.sum64()
}

/// A checksum in progress over a stream that arrives in chunks.
pub struct ContentHasher {
    digest: crc64fast::Digest,
}

impl View for ContentHasher {
    type V = Seq<u8>;

    /// The stream that was fed so far.
    closed spec fn view(&self) -> Seq<u8> {
        digest_stream(self.digest)
    }
}

impl ContentHasher {
    /// A hasher that has seen nothing.
    pub fn new() -> (hasher: ContentHasher)
        ensures
            hasher@ == Seq::<u8>::empty(),
    {
        ContentHasher { digest: digest_new() }
    }

    /// Takes what one read returned.  A read of nothing is the end of the
    /// stream and yields the checksum of all that was fed; anything else is
    /// added to the stream and the result is `None`: read on.
    pub fn feed(&mut self, chunk: &[u8]) -> (sum: Option<u64>)
        ensures
            chunk@.len() == 0 ==> final(self)@ == old(self)@ && sum == Some(crc64_of(old(self)@)),
            chunk@.len() > 0 ==> final(self)@ == old(self)@ + chunk@ && sum is None,
    {
        if chunk.len() == 0 {
            Some(digest_sum64(&self.digest))
        } else {
            digest_write(&mut self.digest, chunk);
            None
        }
    }

    /// The checksum of the stream that was fed so far.
    pub fn sum64(&self) -> (sum: u64)
        ensures
            sum == crc64_of(self@),
            self@.len() == 0 ==> sum == 0,
    {
        digest_sum64(&self.digest)
    }
}

/// The CRC-64 of `data`, computed in chunks of `buffer_size` bytes.  The
/// chunk size changes the work, never the result; a size of zero is taken
/// as one.
pub fn crc64(data: &[u8], buffer_size: usize) -> (sum: u64)
    ensures
        sum == crc64_of(data@),
        data@.len() == 0 ==> sum == 0,
{
    let step = if buffer_size == 0 {
        1
    } else {
        buffer_size
    };
    let mut hasher = ContentHasher::new();
    let mut done: usize = 0;
    while done < data.len()
        invariant
            step > 0,
            done <= data.len(),
            hasher@ == data@.subrange(0, done as int),
        decreases data.len() - done,
    {
        let end = if data.len() - done < step {
            data.len()
        } else {
            done + step
        };
        let chunk = slice_subrange(data, done, end);
        hasher.feed(chunk);
        assert(hasher@ =~= data@.subrange(0, end as int));
        done = end;
    }
    assert(data@.subrange(0, done as int) =~= data@);
    hasher.sum64()
}

/// What one pair of chunks, read in lockstep from two files, says about
/// the two streams.
#[derive(Clone, Copy, Debug, PartialEq, Eq, Structural)]
pub enum ChunkVerdict {
    /// The chunks are equal and not empty: read on.
    Continue,
    /// Both streams ended together: the files are equal.
    Equal,
    /// The chunks differ in length or in a byte: the files count as
    /// different.
    Different,
}

/// The verdict on one pair of chunks.
pub open spec fn chunk_verdict(first: Seq<u8>, second: Seq<u8>) -> ChunkVerdict {
    if first.len() == 0 && second.len() == 0 {
        ChunkVerdict::Equal
    } else if first == second {
        ChunkVerdict::Continue
    } else {
        ChunkVerdict::Different
    }
}

/// Whether two runs of bytes are the same.
fn same_bytes(first: &[u8], second: &[u8]) -> (same: bool)
    ensures
        same == (first@ == second@),
{
    if first.len() != second.len() {
        return false;
    }
    let mut k: usize = 0;
    while k < first.len()
        invariant
            k <= first.len(),
            first.len() == second.len(),
            forall|j: int| 0 <= j < k ==> first@[j] == second@[j],
        decreases first.len() - k,
    {
        if first[k] != second[k] {
            return false;
        }
        k += 1;
    }
    assert(first@ =~= second@);
    true
}

/// Judges one pair of chunks that were read in lockstep.
pub fn compare_chunks(first: &[u8], second: &[u8]) -> (verdict: ChunkVerdict)
    ensures
        verdict == chunk_verdict(first@, second@),
{
    if first.len() == 0 && second.len() == 0 {
        ChunkVerdict::Equal
    } else if same_bytes(first, second) {
        ChunkVerdict::Continue
    } else {
        ChunkVerdict::Different
    }
}

/// The first `n` chunks of a stream, joined.
pub open spec fn joined(chunks: Seq<Seq<u8>>, n: nat) -> Seq<u8>
    decreases n,
{
    if n == 0 {
        Seq::empty()
    } else {
        joined(chunks, (n - 1) as nat) + chunks[n - 1]
    }
}

/// The comparator never calls different streams equal.  When every pair
/// of chunks before the last told to read on and the last pair said
/// "equal", the two streams, joined from their chunks, are the same bytes.
pub proof fn lemma_equal_verdict_is_sound(first: Seq<Seq<u8>>, second: Seq<Seq<u8>>, n: nat)
    requires
        n < first.len(),
        n < second.len(),
        forall|k: int| 0 <= k < n ==> chunk_verdict(first[k], second[k]) == ChunkVerdict::Continue,
        chunk_verdict(first[n as int], second[n as int]) == ChunkVerdict::Equal,
    ensures
        joined(first, n + 1) == joined(second, n + 1),
{
    lemma_continue_keeps_equal(first, second, n);
    assert(first[n as int] =~= second[n as int]);
}

proof fn lemma_continue_keeps_equal(first: Seq<Seq<u8>>, second: Seq<Seq<u8>>, n: nat)
    requires
        n <= first.len(),
        n <= second.len(),
        forall|k: int| 0 <= k < n ==> chunk_verdict(first[k], second[k]) == ChunkVerdict::Continue,
    ensures
        joined(first, n) == joined(second, n),
    decreases n,
{
    if n > 0 {
        lemma_continue_keeps_equal(first, second, (n - 1) as nat);
        assert(chunk_verdict(first[n - 1], second[n - 1]) == ChunkVerdict::Continue);
    }
}

/// Whether two byte streams are equal, compared in chunks of `buffer_size`
/// bytes and stopping at the first difference.  The chunk size changes the
/// work, never the result; a size of zero is taken as one.
pub fn compare_content(first: &[u8], second: &[u8], buffer_size: usize) -> (equal: bool)
    ensures
        equal == (first@ == second@),
{
    let step = if buffer_size == 0 {
        1
    } else {
        buffer_size
    };
    let mut done: usize = 0;
    loop
        invariant
            step > 0,
            done <= first.len(),
            done <= second.len(),
            first@.subrange(0, done as int) == second@.subrange(0, done as int),
        decreases first.len() - done,
    {
        let first_end = if first.len() - done < step {
            first.len()
        } else {
            done + step
        };
        let second_end = if second.len() - done < step {
            second.len()
        } else {
            done + step
        };
        let first_chunk = slice_subrange(first, done, first_end);
        let second_chunk = slice_subrange(second, done, second_end);
        match compare_chunks(first_chunk, second_chunk) {
            ChunkVerdict::Equal => {
                assert(first@ =~= first@.subrange(0, done as int));
                assert(second@ =~= second@.subrange(0, done as int));
                return true;
            },
            ChunkVerdict::Different => {
                proof {
                    if first@ == second@ {
                        assert(first_chunk@ =~= second_chunk@);
                    }
                }
                return false;
            },
            ChunkVerdict::Continue => {
                assert(first@.subrange(0, first_end as int) =~= first@.subrange(0, done as int)
                    + first_chunk@);
                assert(second@.subrange(0, second_end as int) =~= second@.subrange(
                    0,
                    done as int,
                ) + second_chunk@);
                done = first_end;
            },
        }
    }
}

/// Whether a text is free of everything that expansion acts on: it holds
/// no dollar sign and does not begin with a tilde.
pub open spec fn plain(text: Seq<char>) -> bool {
    !text.contains('$') && (text.len() == 0 || text[0] != '~')
}

/// Whether the standard library counts a character as a letter or a digit.
pub uninterp spec fn alphanumeric(c: char) -> bool;

/// `char::is_alphanumeric`: whether a character is a letter or a digit by
/// the Unicode tables of the standard library.  The contract names the
/// answer and claims only that it depends on the character alone.
#[verifier::external_body]
fn is_letter_or_digit(c: char) -> (answer: bool)
    ensures
        answer == alphanumeric(c),
{
    c.is_alphanumeric()
}

/// Whether a character may not follow a dollar sign: it is a letter or a
/// digit, and wider than one byte.
pub open spec fn breaks_expansion(c: char) -> bool {
    c as u32 >= 128 && alphanumeric(c)
}

/// Whether a text can be expanded: no dollar sign is followed at once by a
/// letter or a digit outside ASCII.
pub open spec fn expandable(text: Seq<char>) -> bool {
    forall|k: int|
        0 <= k && k + 1 < text.len() && #[trigger] text[k] == '$' ==> !breaks_expansion(
            text[k + 1],
        )
}

/// `shellexpand::full`: the text with `~` at its start replaced by the home
/// directory and `$NAME`, `${NAME}` by the values of the environment.  What
/// comes out depends on the environment, so the contract says only what
/// holds in every environment: a text without a dollar sign and without a
/// leading tilde comes back unchanged.  A failed lookup is handed on as the
/// name of the variable and the message of its cause.  Where a letter or a
/// digit follows a dollar sign, the call cuts the text one byte behind the
/// dollar sign, so that character has to be one byte wide: hence the
/// precondition.
#[verifier::external_body]
fn shell_full(input: &str) -> (expanded: Result<String, (String, String)>)
    requires
        expandable(input@),
    ensures
        plain(input@) ==> expanded is Ok && expanded->Ok_0@ == input@,
{
    match shellexpand::full(input) {
        Ok(text) => Ok(text.into_owned()),
        Err(error) => Err((error.var_name, error.cause.to_string())),
    }
}

/// Decides whether a text can be expanded.
pub fn can_expand(text: &str) -> (fit: bool)
    ensures
        fit == expandable(text@),
{
    let length = text.unicode_len();
    let mut k: usize = 0;
    while k < length && k + 1 < length
        invariant
            length == text@.len(),
            forall|j: int|
                0 <= j < k && j + 1 < text@.len() && #[trigger] text@[j] == '$'
                    ==> !breaks_expansion(text@[j + 1]),
        decreases length - k,
    {
        if text.get_char(k) == '$' {
            let next = text.get_char(k + 1);
            if next as u32 >= 128 && is_letter_or_digit(next) {
                return false;
            }
        }
        k += 1;
    }
    true
}

/// The error for a path in which a dollar sign is followed by a letter or a
/// digit outside ASCII.
pub open spec fn bad_variable() -> crate::err::ErrorView {
    crate::err::ErrorView::ExpandError {
        var_name: ""@,
        cause: "variable name does not begin with an ASCII character"@,
    }
}

/// What [`expand_path`] returns for each result of the expansion: the text
/// on success, and on failure the expansion error with the name of the
/// variable and the cause.
pub fn expansion_result(expanded: Result<String, (String, String)>) -> (resolved: Result<
    String,
    Error,
>)
    ensures
        match expanded {
            Ok(text) => resolved is Ok && resolved->Ok_0@ == text@,
            Err(failure) => resolved is Err && resolved->Err_0@
                == (crate::err::ErrorView::ExpandError {
                var_name: failure.0@,
                cause: failure.1@,
            }),
        },
{
    match expanded {
        Ok(text) => Ok(text),
        Err(failure) => Err(Error::ExpandError { var_name: failure.0, cause: failure.1 }),
    }
}

/// Expands the home tilde and the environment variables of a path that the
/// user gave.  Making the result canonical is left to the caller.
///
/// A path that is not valid Unicode is refused with the Unicode error, and
/// one in which a dollar sign is followed by a letter or a digit outside
/// ASCII with an expansion error.  Any other path either expands or fails
/// with the expansion error of a lookup; which, and to what, depends on the
/// environment, except that a plain path always comes back as it is.
pub fn expand_path(src: &[u8]) -> (resolved: Result<String, Error>)
    ensures
        !valid_utf8(src@) ==> resolved is Err && resolved->Err_0@
            == (crate::err::ErrorView::UnicodeError { lossy: lossy_text(src@) }),
        valid_utf8(src@) && !expandable(vstd::utf8::decode_utf8(src@)) ==> resolved is Err
            && resolved->Err_0@ == bad_variable(),
        valid_utf8(src@) && expandable(vstd::utf8::decode_utf8(src@)) ==> resolved is Ok
            || resolved->Err_0@ is ExpandError,
        valid_utf8(src@) && plain(vstd::utf8::decode_utf8(src@)) ==> resolved is Ok
            && resolved->Ok_0@ == vstd::utf8::decode_utf8(src@),
{
    match text_of(src) {
        None => Err(unicode_error(src)),
        Some(text) => {
            proof {
                vstd::utf8::encode_utf8_decode_utf8(text@);
            }
            if !can_expand(text) {
                proof {
                    if plain(text@) {
                        assert forall|k: int|
                            0 <= k && k + 1 < text@.len() && #[trigger] text@[k]
                                == '$' implies !breaks_expansion(text@[k + 1]) by {
                            assert(text@.contains(text@[k]));
                        }
                    }
                }
                return Err(
                    Error::ExpandError {
                        var_name: "".to_owned(),
                        cause: "variable name does not begin with an ASCII character".to_owned(),
                    },
                );
            }
            expansion_result(shell_full(text))
        },
    }
}

} // verus!
