//! Decisions around the window service: permission checks, picking windows
//! out of enumerations, and describing windows.

use vstd::prelude::*;

use crate::error::PixieError;
use crate::text::{decimal_of, push_decimal, push_str};

verus! {

/// Fails unless the process may use the accessibility service.
pub fn test_api_access(trusted: bool) -> (r: Result<(), PixieError>)
    ensures
        r is Ok <==> trusted,
        r matches Err(e) ==> e is Accessibility,
{
    if !trusted {
        return Err(
            PixieError::Accessibility(
                String::from_str(
                    "Process is not trusted for Accessibility (AXIsProcessTrusted=false)",
                ),
            ),
        );
    }
    Ok(())
}

/// First entry, among the first `n`, on the standard window layer with a known owner.
pub open spec fn first_standard_owner(entries: Seq<(i64, Option<i32>)>, n: nat) -> Option<i32>
    decreases n,
{
    if n == 0 {
        None
    } else {
        match first_standard_owner(entries, (n - 1) as nat) {
            Some(p) => Some(p),
            None => if entries[n - 1].0 == 0 {
                entries[n - 1].1
            } else {
                None
            },
        }
    }
}

proof fn lemma_first_standard_owner_stays(entries: Seq<(i64, Option<i32>)>, n: nat)
    requires
        n <= entries.len(),
        first_standard_owner(entries, n) is Some,
    ensures
        first_standard_owner(entries, entries.len()) == first_standard_owner(entries, n),
    decreases entries.len() - n,
{
    if n < entries.len() {
        assert(first_standard_owner(entries, (n + 1) as nat) == first_standard_owner(entries, n));
        lemma_first_standard_owner_stays(entries, (n + 1) as nat);
    }
}

/// Owner of the frontmost window, from the on-screen window list in front-to-back
/// order: each entry is a window's layer and its owner's process id.
pub fn frontmost_application_pid(entries: &Vec<(i64, Option<i32>)>) -> (r: Option<i32>)
    ensures
        r == first_standard_owner(entries@, entries@.len()),
{
    let mut i: usize = 0;
    while i < entries.len()
        invariant
            i <= entries@.len(),
            first_standard_owner(entries@, i as nat) is None,
        decreases entries@.len() - i,
    {
        if entries[i].0 == 0 {
            if let Some(pid) = entries[i].1 {
                assert(first_standard_owner(entries@, (i + 1) as nat) == Some(pid));
                proof {
                    lemma_first_standard_owner_stays(entries@, (i + 1) as nat);
                }
                return Some(pid);
            }
        }
        i += 1;
    }
    None
}

/// First position, among the first `n`, of a window with the id.
pub open spec fn first_id_index(ids: Seq<Option<u32>>, id: u32, n: nat) -> Option<int>
    decreases n,
{
    if n == 0 {
        None
    } else {
        match first_id_index(ids, id, (n - 1) as nat) {
            Some(i) => Some(i),
            None => if ids[n - 1] == Some(id) {
                Some(n - 1)
            } else {
                None
            },
        }
    }
}

proof fn lemma_first_id_index(ids: Seq<Option<u32>>, id: u32, n: nat)
    requires
        n <= ids.len(),
    ensures
        first_id_index(ids, id, n) matches Some(i) ==> 0 <= i < n,
        first_id_index(ids, id, n) is Some ==> first_id_index(ids, id, ids.len()) == first_id_index(
            ids,
            id,
            n,
        ),
    decreases ids.len() - n,
{
    lemma_first_id_bounds(ids, id, n);
    if n < ids.len() && first_id_index(ids, id, n) is Some {
        assert(first_id_index(ids, id, (n + 1) as nat) == first_id_index(ids, id, n));
        lemma_first_id_index(ids, id, (n + 1) as nat);
    }
}

proof fn lemma_first_id_bounds(ids: Seq<Option<u32>>, id: u32, n: nat)
    requires
        n <= ids.len(),
    ensures
        first_id_index(ids, id, n) matches Some(i) ==> 0 <= i < n,
    decreases n,
{
    if n > 0 {
        lemma_first_id_bounds(ids, id, (n - 1) as nat);
    }
}

fn first_with_window_id(ids: &Vec<Option<u32>>, window_id: u32) -> (r: Option<usize>)
    ensures
        match r {
            Some(i) => first_id_index(ids@, window_id, ids@.len()) == Some(i as int) && i
                < ids@.len(),
            None => first_id_index(ids@, window_id, ids@.len()) is None,
        },
{
    let mut i: usize = 0;
    while i < ids.len()
        invariant
            i <= ids@.len(),
            first_id_index(ids@, window_id, i as nat) is None,
        decreases ids@.len() - i,
    {
        if let Some(id) = ids[i] {
            if id == window_id {
                assert(first_id_index(ids@, window_id, (i + 1) as nat) == Some(i as int));
                proof {
                    lemma_first_id_index(ids@, window_id, (i + 1) as nat);
                }
                return Some(i);
            }
        }
        i += 1;
    }
    None
}

/// Position of the window with `window_id` among an application's windows,
/// given by their ids; fails when none has it.
pub fn find_window_by_id(ids: &Vec<Option<u32>>, window_id: u32) -> (r: Result<usize, PixieError>)
    ensures
        match r {
            Ok(i) => first_id_index(ids@, window_id, ids@.len()) == Some(i as int),
            Err(e) => first_id_index(ids@, window_id, ids@.len()) is None && e is WindowNotFound,
        },
{
    match first_with_window_id(ids, window_id) {
        Some(i) => Ok(i),
        None => Err(PixieError::WindowNotFound),
    }
}

/// Position of the window with `window_id` among an application's windows,
/// given by their ids; when none has the id the window is reported missing,
/// never replaced by another.
pub fn find_window_element_by_id(ids: &Vec<Option<u32>>, window_id: u32) -> (r: Result<
    usize,
    PixieError,
>)
    ensures
        match first_id_index(ids@, window_id, ids@.len()) {
            Some(i) => r == Ok::<usize, PixieError>(i as usize),
            None => (r matches Err(e) && e is WindowNotFound),
        },
{
    find_window_by_id(ids, window_id)
}

/// A window as the accessibility service describes it.
#[derive(Debug, Clone)]
pub struct WindowInfo {
    pub pid: i32,
    pub title: String,
    pub role: String,
}

impl WindowInfo {
    /// `App - "Title" (PID: n)`, or `App (PID: n)` when the title is empty,
    /// where `app_name` is the name of the owning application.
    pub fn display_string(&self, app_name: &str) -> (r: String)
        ensures
            r@ == (if self.title@.len() == 0 {
                app_name@ + " (PID: "@ + decimal_of(self.pid as int) + ")"@
            } else {
                app_name@ + " - \""@ + self.title@ + "\" (PID: "@ + decimal_of(self.pid as int)
                    + ")"@
            }),
    {
        let mut out = String::from_str(app_name);
        if self.title.as_str().unicode_len() == 0 {
            push_str(&mut out, " (PID: ");
        } else {
            push_str(&mut out, " - \"");
            push_str(&mut out, self.title.as_str());
            push_str(&mut out, "\" (PID: ");
        }
        push_decimal(&mut out, self.pid as i64);
        push_str(&mut out, ")");
        out
    }
}

} // verus!
