//! Files through which one part of the program tells another: what the one writes is what
//! the other reads.
use vstd::prelude::*;

use crate::ctx::PowerState;
use crate::dispatcher;
use crate::gpu;
use crate::gpu_flow;
use crate::knobs;
use crate::power;
use crate::power::PowerProfile;
use crate::power_cli;
use crate::power_cli::SetAction;
use crate::profile_flow;
use crate::profiles::GpuPref;
use crate::sysfs;
use crate::tasks::Reply;
use crate::text;

verus! {

/// The word that a kept profile is found under.
proof fn lemma_kept_word(profile: PowerProfile)
    ensures
        sysfs::first_word_in(Some(knobs::kept_text(profile))) == Some(profile.word()),
        PowerProfile::of_word(profile.word()) == Some(profile),
{
    reveal_strlit("\n");
    reveal_strlit("power-saver");
    reveal_strlit("balanced");
    reveal_strlit("performance");
    power::profile_words_roundtrip(profile);
    text::a_word_is_found(profile.word(), "\n"@);
}

/// The echo of the daemon's own change of the override file changes nothing: neither that
/// of a file which it wrote for the override in force, nor that of one which it removed.
pub proof fn own_echoes_change_nothing(p: PowerState, profile: PowerProfile)
    ensures
        p.manual == Some(profile) ==> dispatcher::override_seen(
            p,
            sysfs::first_word_in(Some(knobs::kept_text(profile))),
        ) == p,
        p.manual is None && p.manual_base is None ==> dispatcher::override_seen(
            p,
            sysfs::first_word_in(None),
        ) == p,
{
    lemma_kept_word(profile);
}

/// What `power set` writes is what the daemon takes up, to be stamped at the next policy
/// check; what it clears is gone.
pub proof fn settings_are_taken_up(p: PowerState, profile: PowerProfile)
    ensures
        power_cli::setting(Some(profile.word())) matches SetAction::Write { content, said }
            && dispatcher::override_seen(p, sysfs::first_word_in(Some(content))).manual == Some(profile),
        p.manual != Some(profile) ==> dispatcher::override_seen(
            p,
            sysfs::first_word_in(Some(knobs::kept_text(profile))),
        ).manual_base is None,
        power_cli::setting(Some("auto"@)) is Clear,
        dispatcher::override_seen(p, sysfs::first_word_in(None)).manual is None,
{
    lemma_kept_word(profile);
    reveal_strlit("auto");
    reveal_strlit("power-saver");
    reveal_strlit("balanced");
    reveal_strlit("performance");
    assert("auto"@[0] != profile.word()[0]);
}

/// One more login is enough: a selection at login that finds the breadcrumb, and the same
/// override and platform profile, resolves to the mode that the advice was about.
pub proof fn one_login_is_enough(reply: Reply, pref: GpuPref)
    ensures
        gpu_flow::session_mode(reply, pref) == gpu::mode_of(
            reply.gpu_told().0,
            sysfs::first_word_in(profile_flow::crumb_content(Some(pref))),
            reply.gpu_told().1,
        ),
        gpu_flow::session_mode(reply, GpuPref::Auto) == gpu::mode_of(
            reply.gpu_told().0,
            sysfs::first_word_in(profile_flow::crumb_content(None)),
            reply.gpu_told().1,
        ),
{
    reveal_strlit("\n");
    reveal_strlit("igpu");
    reveal_strlit("dgpu");
    if pref != GpuPref::Auto {
        text::a_word_is_found(pref.word(), "\n"@);
    }
}

} // verus!
