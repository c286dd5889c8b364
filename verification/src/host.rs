use vstd::prelude::*;
use crate::errors::Errcode;

verus! {

/// The shape of a generated hostname: two four-letter lowercase words
/// joined by a dash.
pub open spec fn hostname_shape(h: Seq<char>) -> bool {
    &&& h.len() == 9
    &&& h[4] == '-'
    &&& forall|k: int| 0 <= k < 9 && k != 4 ==> 'a' <= #[trigger] h[k] <= 'z'
}

/// Relies on random_word::get_len over the English list: when the list has
/// words of exactly `len` characters, one of them, drawn at random; nothing
/// more is promised of its content.
#[verifier::external_body]
pub(crate) fn random_word_of_len(len: usize) -> (r: Option<String>)
    ensures
        r matches Some(w) ==> w@.len() == len,
{
    random_word::get_len(len, random_word::Lang::En).map(|w| w.to_string())
}

fn is_lower_word(w: &String, n: usize) -> (r: bool)
    ensures
        r == (w@.len() == n && (forall|k: int| 0 <= k < w@.len() ==> 'a' <= #[trigger] w@[k] <= 'z')),
{
    if w.as_str().unicode_len() != n {
        return false;
    }
    let mut k: usize = 0;
    while k < n
        invariant
            0 <= k <= n,
            w@.len() == n,
            forall|j: int| 0 <= j < k ==> 'a' <= #[trigger] w@[j] <= 'z',
        decreases n - k,
    {
        let c = w.as_str().get_char(k);
        if !('a' <= c && c <= 'z') {
            return false;
        }
        k += 1;
    }
    true
}

/// Generates a random hostname of the form `<word4>-<word4>`.  A word the
/// source cannot provide, or one that is not four lowercase letters, is a
/// `WordError`.
pub fn generate_host() -> (r: Result<String, Errcode>)
    ensures
        r matches Ok(h) ==> hostname_shape(h@),
        r is Err ==> r == Err::<String, Errcode>(Errcode::WordError),
{
    let w1 = match random_word_of_len(4) {
        Some(w) => w,
        None => {
            return Err(Errcode::WordError);
        },
    };
    if !is_lower_word(&w1, 4) {
        return Err(Errcode::WordError);
    }
    let w2 = match random_word_of_len(4) {
        Some(w) => w,
        None => {
            return Err(Errcode::WordError);
        },
    };
    if !is_lower_word(&w2, 4) {
        return Err(Errcode::WordError);
    }
    let mut h = w1;
    h.append("-");
    h.append(w2.as_str());
    proof {
        reveal_strlit("-");
        assert forall|k: int| 0 <= k < 9 && k != 4 implies 'a' <= #[trigger] h@[k] <= 'z' by {
            if k < 4 {
            } else {
                assert(h@[k] == w2@[k - 5]);
            }
        }
    }
    Ok(h)
}

/// Relies on nix::unistd::sethostname: asks the kernel to set the calling
/// process's UTS-namespace hostname.
#[verifier::external_body]
fn sys_sethostname(name: &String) -> (r: Result<(), ()>) {
    match nix::unistd::sethostname(name.as_str()) {
        Ok(()) => Ok(()),
        Err(_) => Err(()),
    }
}

/// Sets the container's hostname inside its own UTS namespace.
pub fn set_container_hostname(hostname: &String) -> (r: Result<(), Errcode>)
    ensures
        r is Err ==> r == Err::<(), Errcode>(Errcode::HostnameError(0)),
{
    match sys_sethostname(hostname) {
        Ok(()) => Ok(()),
        Err(()) => Err(Errcode::HostnameError(0)),
    }
}

} // verus!
