use vstd::prelude::*;
use vstd::string::StrSliceExecFns;
use vstd::string::StringExecFns;

use crate::steam::common_end_of;
use crate::steam::ditect_app_id;
use crate::steam::ditect_steam_game;
use crate::steam::first_game_arg;
use crate::steam::first_id_arg;
use crate::steam::game_end;
use crate::steam::steam_end_of;
use crate::steam::views;
use crate::strutil::app_id_of;
use crate::strutil::find_last_before;
use crate::strutil::last_index_before;
use crate::strutil::str_eq_range;

verus! {

/// Why no run could be planned. Each of these is fatal and reported before
/// any preloading or command execution starts.
#[derive(PartialEq, Eq, Structural, Debug, Clone, Copy)]
pub enum PlanError {
    /// Fewer than two tokens after the program name: no command to launch.
    NotEnoughArgs,
    /// No launch argument reveals the `steamapps` installation layout.
    NoSteamGame,
    /// No launch argument carries an `AppId=` token.
    NoAppId,
}

/// Whether the executable path carries the extension `exe`: the last `.` of
/// its final path component must follow a nonempty stem, and what follows
/// that `.` must be exactly `exe`. This is the sign that the game runs under
/// the compatibility layer.
pub open spec fn extension_is_exe(s: Seq<char>) -> bool {
    let name_start = last_index_before(s, s.len() as int, '/') + 1;
    let d = last_index_before(s, s.len() as int, '.');
    d > name_start && s.skip(d + 1) == "exe"@
}

/// The app's shader-cache directory under the library root.
pub open spec fn shader_root(steam: Seq<char>, id: Seq<char>) -> Seq<char> {
    steam + "/shadercache/"@ + id
}

/// The app's compatibility-layer data directory under the library root.
pub open spec fn compat_root(steam: Seq<char>, id: Seq<char>) -> Seq<char> {
    steam + "/compatdata/"@ + id
}

/// The compatibility layer's support library inside the `common` directory.
pub open spec fn dll_root(common: Seq<char>) -> Seq<char> {
    common + "/Steam.dll"@
}

/// Whether `roots` is exactly the candidate list derived from the argument
/// `s` that revealed the game and from the application id `id`: the game
/// directory and the app's shader-cache directory always; when the game runs
/// under the compatibility layer, also the layer's support library and the
/// app's per-app data directory.
pub open spec fn roots_for(roots: Seq<Seq<char>>, s: Seq<char>, id: Seq<char>) -> bool {
    let k = game_end(s);
    let steam = s.take(steam_end_of(s, k));
    let common = s.take(common_end_of(s, k));
    &&& roots.len() == (if extension_is_exe(s) {
        4int
    } else {
        2int
    })
    &&& roots[0] == s.take(k)
    &&& roots[1] == shader_root(steam, id)
    &&& extension_is_exe(s) ==> roots[2] == dll_root(common) && roots[3] == compat_root(
        steam,
        id,
    )
}

fn has_exe_extension(s: &str) -> (b: bool)
    ensures
        b == extension_is_exe(s@),
{
    let n = s.unicode_len();
    let name_start = match find_last_before(s, n, '/') {
        Some(j) => j + 1,
        None => 0,
    };
    match find_last_before(s, n, '.') {
        Some(d) => {
            if d > name_start {
                proof {
                    assert(s@.skip(d + 1) =~= s@.subrange(d + 1, n as int));
                }
                str_eq_range(s, d + 1, n, "exe")
            } else {
                false
            }
        },
        None => false,
    }
}

/// Derive the preload candidate roots from the launch arguments: detect the
/// game's installation layout and the application id, and fail without one
/// of them. The failure is fatal for the run, never a silent skip.
pub fn plan_preload(args: &Vec<String>) -> (r: Result<Vec<String>, PlanError>)
    ensures
        (first_game_arg(views(args@), 0) == views(args@).len()) <==> r == Err::<
            Vec<String>,
            PlanError,
        >(PlanError::NoSteamGame),
        (first_game_arg(views(args@), 0) < views(args@).len() && first_id_arg(views(args@), 0)
            == views(args@).len()) <==> r == Err::<Vec<String>, PlanError>(
            PlanError::NoAppId,
        ),
        r is Ok <==> (first_game_arg(views(args@), 0) < views(args@).len() && first_id_arg(
            views(args@),
            0,
        ) < views(args@).len()),
        r matches Ok(roots) ==> roots_for(
            views(roots@),
            views(args@)[first_game_arg(views(args@), 0)],
            app_id_of(views(args@)[first_id_arg(views(args@), 0)]),
        ),
{
    proof {
        crate::steam::lemma_first_game_arg_range(views(args@), 0);
        crate::steam::lemma_first_id_arg_range(views(args@), 0);
    }
    let g = match ditect_steam_game(args) {
        Some(g) => g,
        None => {
            return Err(PlanError::NoSteamGame);
        },
    };
    let id = match ditect_app_id(args) {
        Some(id) => id,
        None => {
            return Err(PlanError::NoAppId);
        },
    };
    let is_exe = has_exe_extension(g.exefile_path.as_str());
    let mut shader = g.steamapps_dir.clone();
    shader.append("/shadercache/");
    shader.append(id.as_str());
    let mut roots: Vec<String> = Vec::new();
    roots.push(g.game_dir);
    roots.push(shader);
    if is_exe {
        let mut dll = g.common_dir.clone();
        dll.append("/Steam.dll");
        roots.push(dll);
        let mut compat = g.steamapps_dir.clone();
        compat.append("/compatdata/");
        compat.append(id.as_str());
        roots.push(compat);
    }
    proof {
        let vs = views(roots@);
        assert(vs[0] == roots@[0]@);
        assert(vs[1] == roots@[1]@);
        if is_exe {
            assert(vs[2] == roots@[2]@);
            assert(vs[3] == roots@[3]@);
        }
    }
    Ok(roots)
}

/// Everything one run needs: the command to launch, its arguments, and the
/// preload candidate roots derived from those arguments.
pub struct RunPlan {
    /// The command to launch (the second command-line token).
    pub command: String,
    /// The command's own arguments (every token after the command).
    pub command_args: Vec<String>,
    /// The preload candidate roots.
    pub roots: Vec<String>,
}

/// Plan a whole run from the raw command line (program name first): require
/// a command and at least one argument, then derive the preload roots from
/// the command's arguments.
pub fn plan_run(args: &Vec<String>) -> (r: Result<RunPlan, PlanError>)
    ensures
        (args@.len() <= 2) <==> r == Err::<RunPlan, PlanError>(PlanError::NotEnoughArgs),
        r matches Ok(p) ==> args@.len() > 2 && p.command@ == args@[1]@ && views(p.command_args@)
            == views(args@).skip(2) && {
            let tail = views(args@).skip(2);
            first_game_arg(tail, 0) < tail.len() && first_id_arg(tail, 0) < tail.len()
                && roots_for(
                views(p.roots@),
                tail[first_game_arg(tail, 0)],
                app_id_of(tail[first_id_arg(tail, 0)]),
            )
        },
        args@.len() > 2 ==> {
            let tail = views(args@).skip(2);
            &&& (first_game_arg(tail, 0) == tail.len() ==> r == Err::<RunPlan, PlanError>(
                PlanError::NoSteamGame,
            ))
            &&& (first_game_arg(tail, 0) < tail.len() && first_id_arg(tail, 0) == tail.len()
                ==> r == Err::<RunPlan, PlanError>(PlanError::NoAppId))
            &&& (first_game_arg(tail, 0) < tail.len() && first_id_arg(tail, 0) < tail.len()
                ==> r is Ok)
        },
{
    if args.len() <= 2 {
        return Err(PlanError::NotEnoughArgs);
    }
    let command = args[1].clone();
    let mut command_args: Vec<String> = Vec::new();
    let mut i: usize = 2;
    while i < args.len()
        invariant
            2 <= i <= args@.len(),
            command_args@.len() == i - 2,
            forall|j: int| 0 <= j < i - 2 ==> command_args@[j] == args@[j + 2],
        decreases args@.len() - i,
    {
        command_args.push(args[i].clone());
        i += 1;
    }
    proof {
        assert(views(command_args@) =~= views(args@).skip(2)) by {
            assert(views(command_args@).len() == views(args@).skip(2).len());
            assert forall|j: int| 0 <= j < command_args@.len() implies views(command_args@)[j]
                == views(args@).skip(2)[j] by {
                assert(views(command_args@)[j] == command_args@[j]@);
                assert(views(args@)[j + 2] == args@[j + 2]@);
            }
        }
    }
    let planned = plan_preload(&command_args);
    match planned {
        Ok(roots) => Ok(RunPlan { command, command_args, roots }),
        Err(e) => {
            proof {
                crate::steam::lemma_first_game_arg_range(views(command_args@), 0);
                crate::steam::lemma_first_id_arg_range(views(command_args@), 0);
                assert(e == PlanError::NoSteamGame || e == PlanError::NoAppId);
            }
            Err(e)
        },
    }
}

} // verus!
