use vstd::prelude::*;
use vstd::string::StrSliceExecFns;

use crate::strutil::contains_substr;
use crate::strutil::find_last_before;
use crate::strutil::extract_app_id;
use crate::strutil::has_substring;
use crate::strutil::last_index_before;
use crate::strutil::str_eq_range;

verus! {

/// Paths are treated as '/'-separated component lists. A prefix of a path
/// counts as an ancestor when it ends exactly before a separator (or is the
/// whole path).
pub open spec fn boundary(s: Seq<char>, k: int) -> bool {
    0 <= k <= s.len() && (k == s.len() || s[k] == '/')
}

/// Whether the ancestor of `s` ending at `k` sits directly inside a
/// directory whose name is `common` (the hallmark of a Steam game directory
/// under a `steamapps` library root).
pub open spec fn common_match(s: Seq<char>, k: int) -> bool {
    let p = last_index_before(s, k, '/');
    p >= 1 && s.subrange(last_index_before(s, p, '/') + 1, p) == "common"@
}

/// Where the detected game directory ends in `s`: the largest `k' <= k` that
/// is an ancestor boundary satisfying [`common_match`], or -1 if none is.
pub open spec fn match_end_from(s: Seq<char>, k: int) -> int
    decreases k + 1,
{
    if k < 0 {
        -1
    } else if boundary(s, k) && common_match(s, k) {
        k
    } else {
        match_end_from(s, k - 1)
    }
}

/// Where the game directory detected in the whole of `s` ends, scanning
/// ancestors from the longest down, or -1 when no ancestor matches.
pub open spec fn game_end(s: Seq<char>) -> int {
    match_end_from(s, s.len() as int)
}

/// Whether one launch argument reveals the installation layout: it must
/// mention `steamapps` and hold an ancestor directly inside a `common`
/// directory.
pub open spec fn arg_matches(s: Seq<char>) -> bool {
    has_substring(s, "steamapps"@) && game_end(s) >= 0
}

/// Where the `common` directory containing the game directory (which ends at
/// `k`) ends.
pub open spec fn common_end_of(s: Seq<char>, k: int) -> int {
    last_index_before(s, k, '/')
}

/// Where the `steamapps` library root containing that `common` directory
/// ends (0 when the `common` directory is the first component).
pub open spec fn steam_end_of(s: Seq<char>, k: int) -> int {
    let q = last_index_before(s, common_end_of(s, k), '/');
    if q >= 0 {
        q
    } else {
        0
    }
}

/// The index of the first argument that reveals the installation layout, or
/// `args.len()` if none does.
pub open spec fn first_game_arg(args: Seq<Seq<char>>, i: int) -> int
    decreases args.len() - i,
{
    if i < 0 || i >= args.len() {
        args.len() as int
    } else if arg_matches(args[i]) {
        i
    } else {
        first_game_arg(args, i + 1)
    }
}

/// The views of a list of argument strings.
pub open spec fn views(args: Seq<String>) -> Seq<Seq<char>> {
    args.map_values(|a: String| a@)
}

/// The directories of a detected Steam game installation, all taken from the
/// launch argument that named the game's executable.
pub struct SteamGame {
    /// The argument itself: the path of the game's executable.
    pub exefile_path: String,
    /// The `steamapps` library root (parent of the `common` directory).
    pub steamapps_dir: String,
    /// The game's own installation directory.
    pub game_dir: String,
    /// The shared `common` directory holding all installed games.
    pub common_dir: String,
}

/// Whether `g` is exactly the detection result for the argument `s`.
pub open spec fn game_of(g: SteamGame, s: Seq<char>) -> bool {
    let k = game_end(s);
    &&& g.exefile_path@ == s
    &&& g.game_dir@ == s.take(k)
    &&& g.common_dir@ == s.take(common_end_of(s, k))
    &&& g.steamapps_dir@ == s.take(steam_end_of(s, k))
}

/// Try the single ancestor of `s` that ends at `k`.
fn try_ancestor(s: &str, k: usize) -> (r: Option<SteamGame>)
    requires
        k <= s@.len(),
    ensures
        r is Some <==> (boundary(s@, k as int) && common_match(s@, k as int)),
        r matches Some(g) ==> g.exefile_path@ == s@ && g.game_dir@ == s@.take(k as int)
            && g.common_dir@ == s@.take(common_end_of(s@, k as int)) && g.steamapps_dir@
            == s@.take(steam_end_of(s@, k as int)),
{
    let n = s.unicode_len();
    if !(k == n || s.get_char(k) == '/') {
        return None;
    }
    let p = match find_last_before(s, k, '/') {
        Some(p) => p,
        None => {
            return None;
        },
    };
    if p == 0 {
        return None;
    }
    let name_start = match find_last_before(s, p, '/') {
        Some(q) => q + 1,
        None => 0,
    };
    if str_eq_range(s, name_start, p, "common") {
        let steam_end = if name_start == 0 {
            0
        } else {
            name_start - 1
        };
        proof {
            assert(s@.take(k as int) =~= s@.subrange(0, k as int));
            assert(s@.take(p as int) =~= s@.subrange(0, p as int));
            assert(s@.take(steam_end as int) =~= s@.subrange(0, steam_end as int));
        }
        Some(
            SteamGame {
                exefile_path: s.to_owned(),
                steamapps_dir: s.substring_char(0, steam_end).to_owned(),
                game_dir: s.substring_char(0, k).to_owned(),
                common_dir: s.substring_char(0, p).to_owned(),
            },
        )
    } else {
        None
    }
}

/// Scan the ancestors of one argument, longest first.
fn scan_arg(s: &str) -> (r: Option<SteamGame>)
    ensures
        r is Some <==> game_end(s@) >= 0,
        r matches Some(g) ==> game_of(g, s@),
{
    let n = s.unicode_len();
    let mut k: usize = n;
    while k > 0
        invariant
            k <= n,
            n == s@.len(),
            match_end_from(s@, n as int) == match_end_from(s@, k as int),
        decreases k,
    {
        if let Some(g) = try_ancestor(s, k) {
            proof {
                assert(match_end_from(s@, k as int) == k);
            }
            return Some(g);
        }
        k -= 1;
    }
    if let Some(g) = try_ancestor(s, 0) {
        proof {
            assert(match_end_from(s@, 0) == 0);
        }
        return Some(g);
    }
    proof {
        assert(match_end_from(s@, 0) == match_end_from(s@, -1));
    }
    None
}

/// Find the Steam game installation that the launch arguments reveal: the
/// first argument mentioning `steamapps` whose path has an ancestor directly
/// inside a `common` directory determines the executable path, the game
/// directory, the `common` directory and the `steamapps` library root.
pub fn ditect_steam_game(args: &Vec<String>) -> (r: Option<SteamGame>)
    ensures
        r is Some <==> first_game_arg(views(args@), 0) < views(args@).len(),
        r matches Some(g) ==> game_of(g, views(args@)[first_game_arg(views(args@), 0)]),
{
    let n = args.len();
    let mut i: usize = 0;
    while i < n
        invariant
            i <= n,
            n == args@.len(),
            first_game_arg(views(args@), 0) == first_game_arg(views(args@), i as int),
        decreases n - i,
    {
        proof {
            assert(views(args@)[i as int] == args@[i as int]@);
        }
        let arg: &String = &args[i];
        if contains_substr(arg.as_str(), "steamapps") {
            if let Some(g) = scan_arg(arg.as_str()) {
                proof {
                    assert(arg_matches(views(args@)[i as int]));
                    assert(first_game_arg(views(args@), i as int) == i);
                }
                return Some(g);
            }
        }
        proof {
            assert(!arg_matches(views(args@)[i as int]));
        }
        i += 1;
    }
    None
}

/// The first-match index never leaves `[i, args.len()]`.
pub proof fn lemma_first_game_arg_range(args: Seq<Seq<char>>, i: int)
    requires
        0 <= i <= args.len(),
    ensures
        i <= first_game_arg(args, i) <= args.len(),
    decreases args.len() - i,
{
    if i < args.len() && !arg_matches(args[i]) {
        lemma_first_game_arg_range(args, i + 1);
    }
}

/// The index of the first argument mentioning the `AppId=` token, or
/// `args.len()` if none does.
pub open spec fn first_id_arg(args: Seq<Seq<char>>, i: int) -> int
    decreases args.len() - i,
{
    if i < 0 || i >= args.len() {
        args.len() as int
    } else if has_substring(args[i], "AppId="@) {
        i
    } else {
        first_id_arg(args, i + 1)
    }
}

/// The first-token index never leaves `[i, args.len()]`.
pub proof fn lemma_first_id_arg_range(args: Seq<Seq<char>>, i: int)
    requires
        0 <= i <= args.len(),
    ensures
        i <= first_id_arg(args, i) <= args.len(),
    decreases args.len() - i,
{
    if i < args.len() && !has_substring(args[i], "AppId="@) {
        lemma_first_id_arg_range(args, i + 1);
    }
}

/// Find the application identifier in the launch arguments: the first
/// argument mentioning `AppId=` yields it, with every `AppId=` token removed
/// and surrounding whitespace trimmed.
pub fn ditect_app_id(args: &Vec<String>) -> (r: Option<String>)
    ensures
        r is Some <==> first_id_arg(views(args@), 0) < views(args@).len(),
        r matches Some(id) ==> id@ == crate::strutil::app_id_of(
            views(args@)[first_id_arg(views(args@), 0)],
        ),
{
    let n = args.len();
    let mut i: usize = 0;
    while i < n
        invariant
            i <= n,
            n == args@.len(),
            first_id_arg(views(args@), 0) == first_id_arg(views(args@), i as int),
        decreases n - i,
    {
        proof {
            assert(views(args@)[i as int] == args@[i as int]@);
        }
        let arg: &String = &args[i];
        if contains_substr(arg.as_str(), "AppId=") {
            let id = extract_app_id(arg.as_str());
            proof {
                assert(first_id_arg(views(args@), i as int) == i);
            }
            return Some(id);
        }
        proof {
            assert(!has_substring(views(args@)[i as int], "AppId="@));
        }
        i += 1;
    }
    None
}

} // verus!
