//! Locating a replay by id in the paginated discovery listing, and the
//! start-download handshake. The network requests themselves are the
//! driver's business; this module holds the decisions: id validation,
//! when to turn to the next page, when the listing is exhausted, and what
//! the handshake response means.

use vstd::prelude::*;
use vstd::string::*;

use crate::errors::ReplayError;

verus! {

/// A replay descriptor as the discovery listing returns it. (The twin
/// carrying the wire-format derives lives with the I/O code.)
#[derive(Debug, Clone, PartialEq)]
pub struct ApiReplay {
    pub id: String,
    pub game_mode: String,
    pub map_name: String,
    pub shack: bool,
    pub created: String,
    pub expires: String,
    pub time_since: i32,
    pub workshop_mods: String,
    pub competitive: bool,
    pub live: bool,
    pub users: Option<Vec<String>>,
    pub modcount: i32,
}

/// One page of the discovery listing: the descriptors of the page and the
/// total count the service reports.
#[derive(Debug, Clone, PartialEq)]
pub struct ApiResponse {
    pub replays: Vec<ApiReplay>,
    pub total: i32,
}

/// A replay row as the listing consumers use it: the descriptor fields
/// with the user list defaulted to empty.
#[derive(Debug, Clone, PartialEq)]
pub struct ReplayItem {
    pub id: String,
    pub game_mode: String,
    pub map_name: String,
    pub created_date: String,
    pub time_since: i32,
    pub competitive: bool,
    pub modcount: i32,
    pub shack: bool,
    pub workshop_mods: String,
    pub live: bool,
    pub users: Vec<String>,
}

/// What `char::is_alphanumeric` holds of a character: a pure
/// classification, the same for the same character everywhere.
pub uninterp spec fn char_alphanumeric(c: char) -> bool;

/// Relies on `char::is_alphanumeric`: the result depends on the character
/// alone.
#[verifier::external_body]
fn is_alphanumeric_char(c: char) -> (r: bool)
    ensures
        r == char_alphanumeric(c),
{
    c.is_alphanumeric()
}

/// A replay id is taken only when every character is alphanumeric; this
/// defends the URL and file paths built from it downstream.
pub open spec fn replay_id_valid(s: Seq<char>) -> bool {
    forall|i: int| 0 <= i < s.len() ==> char_alphanumeric(#[trigger] s[i])
}

/// Checks a replay id character by character.
pub fn validate_replay_id(id: &str) -> (r: bool)
    ensures
        r == replay_id_valid(id@),
{
    let n: usize = id.unicode_len();
    let mut i: usize = 0;
    while i < n
        invariant
            i <= n,
            n == id@.len(),
            forall|j: int| 0 <= j < i ==> char_alphanumeric(#[trigger] id@[j]),
        decreases n - i,
    {
        let c: char = id.get_char(i);
        if !is_alphanumeric_char(c) {
            return false;
        }
        i = i + 1;
    }
    true
}

/// Checks a replay id, reporting a malformed one as `InvalidInput`.
pub fn check_replay_id(id: &str) -> (r: Result<(), ReplayError>)
    ensures
        replay_id_valid(id@) <==> r is Ok,
        !replay_id_valid(id@) ==> r == Result::<(), ReplayError>::Err(ReplayError::InvalidInput),
{
    if validate_replay_id(id) {
        Ok(())
    } else {
        Err(ReplayError::InvalidInput)
    }
}

/// The first index of a page whose descriptor has the given id, or the
/// page length when no descriptor matches.
pub open spec fn found_index(replays: Seq<ApiReplay>, target: Seq<char>) -> int
    decreases replays.len(),
{
    if replays.len() == 0 {
        0
    } else if replays[0].id@ == target {
        0
    } else {
        1 + found_index(replays.drop_first(), target)
    }
}

/// Whether a page holds the target id.
pub open spec fn page_has(page: ApiResponse, target: Seq<char>) -> bool {
    found_index(page.replays@, target) < page.replays@.len()
}

proof fn lemma_found_index_bounds(replays: Seq<ApiReplay>, target: Seq<char>)
    ensures
        0 <= found_index(replays, target) <= replays.len(),
        forall|j: int| 0 <= j < found_index(replays, target) ==> #[trigger] replays[j].id@ != target,
        found_index(replays, target) < replays.len() ==> replays[found_index(
            replays,
            target,
        )].id@ == target,
    decreases replays.len(),
{
    if replays.len() > 0 && replays[0].id@ != target {
        lemma_found_index_bounds(replays.drop_first(), target);
        let k = found_index(replays, target);
        assert forall|j: int| 0 <= j < k implies #[trigger] replays[j].id@ != target by {
            if j > 0 {
                assert(replays.drop_first()[j - 1] == replays[j]);
            }
        }
        if k < replays.len() {
            assert(replays.drop_first()[k - 1] == replays[k]);
        }
    }
}

proof fn lemma_found_index_is(replays: Seq<ApiReplay>, target: Seq<char>, k: int)
    requires
        0 <= k <= replays.len(),
        forall|j: int| 0 <= j < k ==> #[trigger] replays[j].id@ != target,
        k < replays.len() ==> replays[k].id@ == target,
    ensures
        found_index(replays, target) == k,
    decreases replays.len(),
{
    if replays.len() > 0 && k > 0 {
        assert(replays[0].id@ != target);
        assert forall|j: int| 0 <= j < k - 1 implies #[trigger] replays.drop_first()[j].id@
            != target by {
            assert(replays.drop_first()[j] == replays[j + 1]);
        }
        if k - 1 < replays.drop_first().len() {
            assert(replays.drop_first()[k - 1] == replays[k]);
        }
        lemma_found_index_is(replays.drop_first(), target, k - 1);
    }
}

/// What the orchestrator does with one discovery page.
#[derive(Debug, Clone, Copy, PartialEq, Eq, Structural)]
pub enum DiscoveryDecision {
    /// The page holds the target id at this index.
    Found(usize),
    /// No match, and the listing reports more rows: ask again at this
    /// offset.
    Continue(usize),
    /// No match and the offset has reached the reported total: the id is
    /// not available.
    Exhausted,
}

/// Decides what to do with the page fetched at the given offset: take the
/// first matching descriptor if there is one; otherwise turn to the next
/// page (offset + 100) while the offset is below the reported total, and
/// give the search up once it is not.
pub fn discovery_decide(offset: usize, page: &ApiResponse, target: &str) -> (d: DiscoveryDecision)
    requires
        offset + 100 <= usize::MAX,
    ensures
        page_has(*page, target@) ==> d == DiscoveryDecision::Found(
            found_index(page.replays@, target@) as usize,
        ),
        !page_has(*page, target@) && (offset as int) < page.total ==> d
            == DiscoveryDecision::Continue((offset + 100) as usize),
        !page_has(*page, target@) && (offset as int) >= page.total ==> d
            == DiscoveryDecision::Exhausted,
{
    let target_string: String = String::from_str(target);
    let n: usize = page.replays.len();
    let mut i: usize = 0;
    while i < n
        invariant
            i <= n,
            n == page.replays@.len(),
            target_string@ == target@,
            forall|j: int| 0 <= j < i ==> #[trigger] page.replays@[j].id@ != target@,
        decreases n - i,
    {
        if page.replays[i].id == target_string {
            proof {
                lemma_found_index_is(page.replays@, target@, i as int);
            }
            return DiscoveryDecision::Found(i);
        }
        i = i + 1;
    }
    proof {
        lemma_found_index_is(page.replays@, target@, n as int);
    }
    if page.total > 0 && offset < page.total as usize {
        DiscoveryDecision::Continue(offset + 100)
    } else {
        DiscoveryDecision::Exhausted
    }
}

/// The most requests a discovery run can take against a service reporting
/// this total: one more than the page count, and a single request when the
/// total is zero (or meaningless).
pub open spec fn max_discovery_requests(total: int) -> int {
    if total <= 0 {
        1
    } else {
        (total + 99) / 100 + 1
    }
}

/// How a full discovery run ends.
#[derive(Debug, Clone, Copy, PartialEq, Eq, Structural)]
pub enum DiscoveryResult {
    FoundAt { page: usize, index: usize, requests: usize },
    NotFound { requests: usize },
}

/// Runs the whole paginated search over pre-fetched pages, page `j`
/// standing for the response at offset `100 * j`. Every page of one run
/// reports the same total, and the page list covers the run. The search
/// finds the first match if one exists; otherwise it stops after exactly
/// `ceil(total / 100) + 1` requests — one request when the total is zero,
/// so an absent id never loops.
pub fn scan_pages(pages: &Vec<ApiResponse>, target: &str) -> (r: DiscoveryResult)
    requires
        pages@.len() >= 1,
        forall|j: int| 0 <= j < pages@.len() ==> #[trigger] pages@[j].total == pages@[0].total,
        max_discovery_requests(pages@[0].total as int) <= pages@.len(),
    ensures
        match r {
            DiscoveryResult::FoundAt { page, index, requests } => {
                &&& page < pages@.len()
                &&& requests == page + 1
                &&& requests <= max_discovery_requests(pages@[0].total as int)
                &&& (index as int) == found_index(pages@[page as int].replays@, target@)
                &&& page_has(pages@[page as int], target@)
                &&& forall|j: int| 0 <= j < page ==> !page_has(#[trigger] pages@[j], target@)
            },
            DiscoveryResult::NotFound { requests } => {
                &&& requests == max_discovery_requests(pages@[0].total as int)
                &&& forall|j: int| 0 <= j < requests ==> !page_has(#[trigger] pages@[j], target@)
            },
        },
{
    let ghost total = pages@[0].total as int;
    let mut j: usize = 0;
    loop
        invariant
            pages@.len() >= 1,
            forall|k: int| 0 <= k < pages@.len() ==> #[trigger] pages@[k].total == pages@[0].total,
            max_discovery_requests(total) <= pages@.len(),
            total == pages@[0].total as int,
            j < pages@.len(),
            j == 0 || (j - 1) * 100 < total,
            forall|k: int| 0 <= k < j ==> !page_has(#[trigger] pages@[k], target@),
        decreases pages@.len() - j,
    {
        proof {
            if j > 0 {
                assert((j - 1) * 100 < total);
                assert(j * 100 <= total + 99) by (nonlinear_arith)
                    requires
                        (j - 1) * 100 < total,
                ;
                assert(j + 1 <= (total + 99) / 100 + 1) by (nonlinear_arith)
                    requires
                        j * 100 <= total + 99,
                        j >= 1,
                ;
            }
        }
        let offset: usize = j * 100;
        let d = discovery_decide(offset, &pages[j], target);
        match d {
            DiscoveryDecision::Found(i) => {
                proof {
                    lemma_found_index_bounds(pages@[j as int].replays@, target@);
                    vstd::std_specs::vec::axiom_spec_len(&pages@[j as int].replays);
                }
                return DiscoveryResult::FoundAt { page: j, index: i, requests: j + 1 };
            },
            DiscoveryDecision::Exhausted => {
                proof {
                    if total > 0 {
                        assert(j * 100 >= total);
                        assert(j >= (total + 99) / 100) by (nonlinear_arith)
                            requires
                                j * 100 >= total,
                                total > 0,
                        ;
                        assert(j <= (total + 99) / 100);
                    }
                }
                return DiscoveryResult::NotFound { requests: j + 1 };
            },
            DiscoveryDecision::Continue(_) => {
                proof {
                    assert((offset as int) < total);
                    assert(j + 1 < pages@.len()) by (nonlinear_arith)
                        requires
                            j * 100 < total,
                            total > 0 ==> (total + 99) / 100 + 1 <= pages@.len(),
                            total <= 0 ==> 1 <= pages@.len(),
                            j >= 0,
                    ;
                }
                j = j + 1;
            },
        }
    }
}

/// The number of listing pages that a reported total spans (zero when the
/// service reports no rows).
pub fn total_pages(total: i32) -> (r: usize)
    ensures
        total <= 0 ==> r == 0,
        total > 0 ==> r as int == (total + 99) / 100,
{
    if total <= 0 {
        0
    } else {
        ((total as u32 + 99) / 100) as usize
    }
}

/// The listing row of a descriptor: the same fields, with a missing user
/// list defaulted to empty.
pub fn replay_item_from_api(r: &ApiReplay) -> (item: ReplayItem)
    ensures
        item.id@ == r.id@,
        item.game_mode@ == r.game_mode@,
        item.map_name@ == r.map_name@,
        item.created_date@ == r.created@,
        item.time_since == r.time_since,
        item.competitive == r.competitive,
        item.modcount == r.modcount,
        item.shack == r.shack,
        item.workshop_mods@ == r.workshop_mods@,
        item.live == r.live,
        item.users@ == (match r.users {
            Some(u) => u@,
            None => Seq::<String>::empty(),
        }),
{
    let users: Vec<String> = match &r.users {
        Some(u) => {
            let mut out: Vec<String> = Vec::new();
            let n: usize = u.len();
            let mut i: usize = 0;
            while i < n
                invariant
                    i <= n,
                    n == u@.len(),
                    out@ =~= u@.take(i as int),
                decreases n - i,
            {
                out.push(u[i].clone());
                proof {
                    assert(u@.take(i + 1 as int) =~= u@.take(i as int).push(u@[i as int]));
                }
                i = i + 1;
            }
            proof {
                assert(u@.take(n as int) =~= u@);
            }
            out
        },
        None => Vec::new(),
    };
    ReplayItem {
        id: r.id.clone(),
        game_mode: r.game_mode.clone(),
        map_name: r.map_name.clone(),
        created_date: r.created.clone(),
        time_since: r.time_since,
        competitive: r.competitive,
        modcount: r.modcount,
        shack: r.shack,
        workshop_mods: r.workshop_mods.clone(),
        live: r.live,
        users,
    }
}

/// What the start-download handshake means: downloading may begin only
/// when the recording's state is `Recorded`; anything else fails the
/// precondition. The chunk count is the reported value, clamped to the
/// representable range (a negative report means no chunks).
pub open spec fn clamp_chunk_count(n: i64) -> usize {
    if n < 0 {
        0
    } else if n > usize::MAX {
        usize::MAX
    } else {
        n as usize
    }
}

/// Decides the start-download handshake from the response's state string
/// and reported chunk count.
pub fn start_download_decision(state: &str, num_chunks: i64) -> (r: Result<usize, ReplayError>)
    ensures
        state@ == "Recorded"@ ==> r == Result::<usize, ReplayError>::Ok(
            clamp_chunk_count(num_chunks),
        ),
        state@ != "Recorded"@ ==> r == Result::<usize, ReplayError>::Err(
            ReplayError::PreconditionFailed,
        ),
{
    let state_string: String = String::from_str(state);
    let expected: String = String::from_str("Recorded");
    if state_string == expected {
        if num_chunks < 0 {
            Ok(0)
        } else {
            let wide: u64 = num_chunks as u64;
            if wide > usize::MAX as u64 {
                Ok(usize::MAX)
            } else {
                Ok(wide as usize)
            }
        }
    } else {
        Err(ReplayError::PreconditionFailed)
    }
}

} // verus!
