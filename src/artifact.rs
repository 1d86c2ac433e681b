//! Names of the on-disk artifacts of one execution.

use vstd::prelude::*;

verus! {

/// Directory that receives the compiled executables.
pub const EXEC_DIR: &'static str = "src/tmp/";

/// A lowercase hexadecimal digit.
pub open spec fn is_hex_digit(c: char) -> bool {
    ('0' <= c && c <= '9') || ('a' <= c && c <= 'f')
}

/// Positions of the hyphens in a hyphenated token.
pub open spec fn is_hyphen_position(i: int) -> bool {
    i == 8 || i == 13 || i == 18 || i == 23
}

/// A random token rendered as text: 32 lowercase hex digits in groups of
/// 8-4-4-4-12, separated by hyphens.
pub open spec fn is_token(s: Seq<char>) -> bool {
    &&& s.len() == 36
    &&& forall|i: int|
        0 <= i < 36 ==> (if is_hyphen_position(i) {
            s[i] == '-'
        } else {
            is_hex_digit(#[trigger] s[i])
        })
}

/// Path of the executable produced for the artifact name `name`.
pub open spec fn exec_path_of(name: Seq<char>) -> Seq<char> {
    EXEC_DIR@ + name
}

/// Relies on uuid's `Uuid::new_v4` (a random version-4 identifier) and on its
/// `Display`, which renders the hyphenated lowercase form.
#[verifier::external_body]
fn new_token() -> (r: String)
    ensures
        is_token(r@),
{
    uuid::Uuid::new_v4().to_string()
}

/// A fresh artifact name, drawn at random for each call.
pub fn fresh_name() -> (r: String)
    ensures
        is_token(r@),
{
    new_token()
}

/// Path where the executable of artifact `name` is written.
pub fn exec_path_for(name: &str) -> (r: String)
    ensures
        r@ == exec_path_of(name@),
{
    String::from_str(EXEC_DIR).concat(name)
}

/// Two distinct artifact names never share an executable path, so requests that
/// draw different names never touch each other's executables.
pub proof fn lemma_exec_paths_distinct(a: Seq<char>, b: Seq<char>)
    requires
        a != b,
    ensures
        exec_path_of(a) != exec_path_of(b),
{
    let p = EXEC_DIR@;
    if exec_path_of(a) == exec_path_of(b) {
        assert(a =~= exec_path_of(a).subrange(p.len() as int, exec_path_of(a).len() as int));
        assert(b =~= exec_path_of(b).subrange(p.len() as int, exec_path_of(b).len() as int));
    }
}

} // verus!
