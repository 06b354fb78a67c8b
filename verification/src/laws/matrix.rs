//! What applying a profile writes to the hardware.
use vstd::prelude::*;

use crate::gpu;
use crate::gpu::CardView;
use crate::gpu_state;
use crate::knobs;
use crate::knobs::{Knob, KnobReadings, PolicyView, ReadOutcome, RowView};
use crate::power::PowerProfile;
use crate::text;

verus! {

/// The value is what the matrix has for the profile in the row of this label.
pub open spec fn fits(p: PowerProfile, label: Seq<char>, value: Seq<char>) -> bool {
    let saving = p == PowerProfile::PowerSaver;
    let racing = p == PowerProfile::Performance;
    ||| label == "platform_profile"@ && (if saving {
        value == "low-power"@ || value == "quiet"@
    } else if racing {
        value == "performance"@
    } else {
        value == "balanced"@
    })
    ||| label == "scaling_governor"@ && value == (if racing {
        "performance"@
    } else {
        "powersave"@
    })
    ||| label == "energy_performance_preference"@ && !racing && value == (if saving {
        "power"@
    } else {
        "balance_performance"@
    })
    ||| label == "boost"@ && value == (if saving {
        "0"@
    } else {
        "1"@
    })
    ||| label == "no_turbo"@ && value == (if saving {
        "1"@
    } else {
        "0"@
    })
    ||| label == "pcie_aspm"@ && value == (if saving {
        "powersupersave"@
    } else {
        "default"@
    })
    ||| text::has_prefix(label, "dpm:"@) && (value == "auto"@ || saving && value == "low"@)
}

/// Every write of a row fits the profile.
pub open spec fn row_fits(p: PowerProfile, r: RowView) -> bool {
    forall|j: int|
        0 <= j < r.knobs.len() ==> (#[trigger] r.knobs[j] matches Knob::Write { path, value }
            ==> fits(p, r.label, value))
}

proof fn lemma_offered_is_in_chain(chain: Seq<Seq<char>>, choices: Option<Seq<char>>)
    ensures
        knobs::first_offered(chain, choices) matches Some(v) ==> chain.contains(v)
            && knobs::offered(choices, v),
    decreases chain.len(),
{
    if chain.len() > 0 {
        lemma_offered_is_in_chain(chain.skip(1), choices);
        if knobs::offered(choices, chain[0]) {
            assert(chain.contains(chain[0]));
        } else if knobs::first_offered(chain.skip(1), choices) is Some {
            let v = knobs::first_offered(chain.skip(1), choices)->0;
            let k = choose|k: int| 0 <= k < chain.skip(1).len() && chain.skip(1)[k] == v;
            assert(chain[k + 1] == v);
        }
    }
}

proof fn lemma_platform_fits(p: PowerProfile, present: bool, choices: Option<Seq<char>>)
    ensures
        row_fits(p, knobs::platform_plan(p, present, choices)),
{
    lemma_offered_is_in_chain(crate::power::chain_of(p), choices);
    let r = knobs::platform_plan(p, present, choices);
    assert forall|j: int| 0 <= j < r.knobs.len() implies (#[trigger] r.knobs[j] matches Knob::Write {
        path,
        value,
    } ==> fits(p, r.label, value)) by {
        if r.knobs[j] is Write {
            let v = r.knobs[j]->value;
            let chain = crate::power::chain_of(p);
            assert(chain.contains(v));
            let k = choose|k: int| 0 <= k < chain.len() && chain[k] == v;
        }
    }
}

proof fn lemma_gpus_fit(p: PowerProfile, cards: Seq<CardView>, statuses: Seq<Option<String>>, i: int)
    requires
        0 <= i < knobs::gpu_plan(p, cards, statuses).len(),
    ensures
        row_fits(p, knobs::gpu_plan(p, cards, statuses)[i]),
{
    reveal_strlit("dpm:");
    let r = knobs::gpu_plan(p, cards, statuses)[i];
    assert forall|j: int| 0 <= j < r.knobs.len() implies (#[trigger] r.knobs[j] matches Knob::Write {
        path,
        value,
    } ==> fits(p, r.label, value)) by {
        if r.knobs[j] is Write {
            assert(r.label =~= "dpm:"@ + gpu::key_of(cards[i].path));
            assert(r.label.take(4) =~= "dpm:"@);
        }
    }
}

/// Every write of an apply has the value that the matrix gives for the profile that was
/// asked for, whatever was read of the machine.
pub proof fn applies_write_what_the_profile_means(
    p: PowerProfile,
    aspm_writable: bool,
    k: KnobReadings,
    i: int,
)
    requires
        0 <= i < knobs::apply_plan(p, aspm_writable, k).len(),
    ensures
        row_fits(p, knobs::apply_plan(p, aspm_writable, k)[i]),
{
    let entries = knobs::policy_views(k.policies@);
    let cpu = knobs::cpu_plan(p, knobs::policies_of(entries));
    let gpus = knobs::gpu_plan(p, gpu::card_views(k.gpus.cards@), k.runtime@);
    let all = knobs::apply_plan(p, aspm_writable, k);
    let row = all[i];
    if i == 0 {
        lemma_platform_fits(p, k.platform, text::opt_string(k.choices));
    } else if i < 1 + cpu.len() {
        assert(row == cpu[i - 1]);
        assert(row_fits(p, cpu[i - 1]));
    } else if i == 1 + cpu.len() {
        assert(row == knobs::boost_plan(p, k.has_boost, k.has_no_turbo));
        assert(row_fits(p, row));
    } else if i < 2 + cpu.len() + gpus.len() {
        let g = i - 2 - cpu.len();
        assert(row == gpus[g]);
        lemma_gpus_fit(p, gpu::card_views(k.gpus.cards@), k.runtime@, g);
    } else {
        assert(row == knobs::aspm_plan(p, k.aspm, aspm_writable));
        assert(row_fits(p, row));
    }
}

/// A row of one write.
pub open spec fn one_write(label: Seq<char>, path: Seq<char>, value: Seq<char>) -> RowView {
    RowView { label, knobs: seq![Knob::Write { path, value }] }
}

/// The platform profile is written first, to the value that is wanted most of those that
/// the firmware offers; the others stand back. Where it offers none, or there is no such
/// setting, nothing is written.
pub proof fn the_platform_profile_is_written(
    p: PowerProfile,
    aspm_writable: bool,
    k: KnobReadings,
    choices: String,
)
    requires
        k.choices == Some(choices),
    ensures
        ({
            let row = knobs::apply_plan(p, aspm_writable, k)[0];
            let words = text::words_of(choices@);
            let path = "/sys/firmware/acpi/platform_profile"@;
            let write = |v: Seq<char>| one_write("platform_profile"@, path, v);
            &&& k.platform && p == PowerProfile::PowerSaver && words.contains("low-power"@) ==> row
                == write("low-power"@)
            &&& k.platform && p == PowerProfile::PowerSaver && !words.contains("low-power"@)
                && words.contains("quiet"@) ==> row == write("quiet"@)
            &&& k.platform && p == PowerProfile::Balanced && words.contains("balanced"@) ==> row
                == write("balanced"@)
            &&& k.platform && p == PowerProfile::Performance && words.contains("performance"@)
                ==> row == write("performance"@)
            &&& !k.platform ==> row.knobs.len() == 1 && row.knobs[0] is Settled
        }),
{
    let row = knobs::apply_plan(p, aspm_writable, k)[0];
    let chain = crate::power::chain_of(p);
    let told = Some(choices@);
    assert(text::opt_string(k.choices) == told);
    assert(row == knobs::platform_plan(p, k.platform, told));
    reveal_with_fuel(knobs::first_offered, 3);
}

/// On a machine that offers all three, applies of different profiles write different
/// values.
pub proof fn different_profiles_differ(
    p: PowerProfile,
    q: PowerProfile,
    aspm_writable: bool,
    k: KnobReadings,
    choices: String,
)
    requires
        p != q,
        k.platform,
        k.choices == Some(choices),
        text::words_of(choices@).contains("low-power"@),
        text::words_of(choices@).contains("balanced"@),
        text::words_of(choices@).contains("performance"@),
    ensures
        knobs::apply_plan(p, aspm_writable, k)[0].knobs[0]->value != knobs::apply_plan(
            q,
            aspm_writable,
            k,
        )[0].knobs[0]->value,
{
    the_platform_profile_is_written(p, aspm_writable, k, choices);
    the_platform_profile_is_written(q, aspm_writable, k, choices);
    reveal_strlit("low-power");
    reveal_strlit("balanced");
    reveal_strlit("performance");
    assert("low-power"@[0] != "balanced"@[0] && "low-power"@[0] != "performance"@[0]
        && "balanced"@[0] != "performance"@[0]);
}

/// Boost is written where the kernel has it, and the inverted setting of Intel where only
/// that is there.
pub proof fn boost_is_written(p: PowerProfile, aspm_writable: bool, k: KnobReadings)
    ensures
        ({
            let all = knobs::apply_plan(p, aspm_writable, k);
            let saving = p == PowerProfile::PowerSaver;
            &&& k.has_boost ==> all.contains(
                one_write(
                    "boost"@,
                    "/sys/devices/system/cpu/cpufreq/boost"@,
                    if saving {
                        "0"@
                    } else {
                        "1"@
                    },
                ),
            )
            &&& !k.has_boost && k.has_no_turbo ==> all.contains(
                one_write(
                    "no_turbo"@,
                    "/sys/devices/system/cpu/intel_pstate/no_turbo"@,
                    if saving {
                        "1"@
                    } else {
                        "0"@
                    },
                ),
            )
        }),
{
    let all = knobs::apply_plan(p, aspm_writable, k);
    let cpu = knobs::cpu_plan(p, knobs::policies_of(knobs::policy_views(k.policies@)));
    let at = 1 + cpu.len() as int;
    assert(all[at] == knobs::boost_plan(p, k.has_boost, k.has_no_turbo));
    assert(knobs::CPUFREQ_DIR@ + "/boost"@ =~= "/sys/devices/system/cpu/cpufreq/boost"@) by {
        reveal_strlit("/sys/devices/system/cpu/cpufreq");
        reveal_strlit("/boost");
        reveal_strlit("/sys/devices/system/cpu/cpufreq/boost");
    }
    assert(all.contains(all[at]));
}

/// The link power policy is written where it can be, is offered and is not selected yet.
pub proof fn the_link_policy_is_written(p: PowerProfile, k: KnobReadings, opts: String)
    requires
        k.aspm == ReadOutcome::Content(opts),
    ensures
        ({
            let all = knobs::apply_plan(p, true, k);
            let words = text::words_of(opts@);
            let value = if p == PowerProfile::PowerSaver {
                "powersupersave"@
            } else {
                "default"@
            };
            let row = all.last();
            &&& knobs::is_option(words, value) && knobs::selected(words) != Some(value) ==> row
                == one_write("pcie_aspm"@, "/sys/module/pcie_aspm/parameters/policy"@, value)
            &&& knobs::selected(words) == Some(value) || !knobs::is_option(words, value)
                ==> row.knobs[0] is Settled
            &&& knobs::apply_plan(p, false, k).last().knobs[0] is Settled
        }),
{
    let all = knobs::apply_plan(p, true, k);
    assert(all.last() == knobs::aspm_plan(p, k.aspm, true));
    assert(knobs::apply_plan(p, false, k).last() == knobs::aspm_plan(p, k.aspm, false));
}

/// The first row of the CPU sets the governor of every policy, in the order of the
/// policies; where the profile has an energy preference it follows for every policy. The
/// driver has to understand energy preferences, and a governor has to be offered.
pub proof fn governors_are_written(p: PowerProfile, policies: Seq<PolicyView>, i: int)
    requires
        0 <= i < policies.len(),
        policies[0].has_epp,
    ensures
        ({
            let rows = knobs::cpu_plan(p, policies);
            let racing = p == PowerProfile::Performance;
            let governor = if racing {
                "performance"@
            } else {
                "powersave"@
            };
            let dir = knobs::CPUFREQ_DIR@ + "/"@ + policies[i].name + "/"@;
            let offered = policies[i].governors matches Some(g) && text::words_of(g).contains(
                governor,
            );
            &&& rows.len() == (if racing {
                1int
            } else {
                2
            })
            &&& rows[0].label == "scaling_governor"@
            &&& rows[0].knobs.len() == policies.len()
            &&& offered ==> rows[0].knobs[i] == (Knob::Write {
                path: dir + "scaling_governor"@,
                value: governor,
            })
            &&& !offered ==> rows[0].knobs[i] is Settled
            &&& !racing ==> rows[1].label == "energy_performance_preference"@
                && rows[1].knobs.len() == policies.len() && rows[1].knobs[i] == (Knob::Write {
                path: dir + "energy_performance_preference"@,
                value: if p == PowerProfile::PowerSaver {
                    "power"@
                } else {
                    "balance_performance"@
                },
            })
        }),
{
    let rows = knobs::cpu_plan(p, policies);
    let racing = p == PowerProfile::Performance;
    assert(rows[0] == knobs::governor_row(policies, knobs::governor_of(p)));
    if !racing {
        assert(rows[1] == knobs::epp_row(policies, knobs::epp_of(p)->0));
    }
}

/// A policy without energy preferences, whose driver is not one of the two that have
/// them, has nothing written; a driver that has them is enough.
pub proof fn plain_drivers_are_left_alone(p: PowerProfile, policies: Seq<PolicyView>, i: int, j: int)
    requires
        policies.len() > 0,
        !policies[0].has_epp,
    ensures
        ({
            let rows = knobs::cpu_plan(p, policies);
            let known = policies[0].driver matches Some(d) && (text::trimmed(d)
                == "amd-pstate-epp"@ || text::trimmed(d) == "intel_pstate"@);
            &&& !known && 0 <= i < rows.len() && 0 <= j < rows[i].knobs.len()
                ==> rows[i].knobs[j] is Settled
            &&& known ==> rows[0].knobs.len() == policies.len()
        }),
{
}

/// The level of a card: the integrated one is always left to itself, a discrete one is
/// held low by power-saver and left to itself otherwise, and one that is suspended, or of
/// which nothing is known, is not touched.
pub proof fn card_levels_are_written(
    p: PowerProfile,
    cards: Seq<CardView>,
    statuses: Seq<Option<String>>,
    integrated: int,
    i: int,
)
    requires
        cards.len() >= 2,
        gpu::is_integrated(cards, integrated),
        0 <= i < cards.len(),
        statuses.len() == cards.len(),
    ensures
        ({
            let rows = knobs::gpu_plan(p, cards, statuses);
            let path = "/sys/class/drm/"@ + cards[i].card
                + "/device/"@ + "power_dpm_force_performance_level"@;
            let status = text::opt_string(statuses[i]);
            let asleep = status matches Some(s) && text::trimmed(s) == "suspended"@;
            &&& rows.len() == cards.len()
            &&& i == integrated ==> rows[i].knobs == seq![
                Knob::Write { path, value: "auto"@ },
            ]
            &&& i != integrated && status is Some && !asleep ==> rows[i].knobs == seq![
                Knob::Write {
                    path,
                    value: if p == PowerProfile::PowerSaver {
                        "low"@
                    } else {
                        "auto"@
                    },
                },
            ]
            &&& i != integrated && (status is None || asleep) ==> rows[i].knobs.len() == 1
                && rows[i].knobs[0] is Settled
        }),
{
    assert(gpu_state::is_integrated_of_several(cards, integrated));
    if gpu::is_integrated(cards, i) {
        gpu::integrated_is_unique(cards, i, integrated);
    }
}

/// A pin keeps every discrete card awake, and taking it back lets every one sleep; the
/// integrated card is never among them.
pub proof fn pins_reach_every_discrete_card(
    cards: Seq<CardView>,
    awake: bool,
    integrated: int,
    i: int,
)
    requires
        cards.len() >= 2,
        gpu::is_integrated(cards, integrated),
        0 <= i < cards.len(),
        i != integrated,
    ensures
        ({
            let rows = knobs::pin_plan(cards, awake);
            &&& rows.len() == cards.len() - 1
            &&& rows[if i < integrated {
                i
            } else {
                i - 1
            }].knobs == seq![
                Knob::Write {
                    path: "/sys/class/drm/"@ + cards[i].card + "/device/"@ + "power/control"@,
                    value: if awake {
                        "on"@
                    } else {
                        "auto"@
                    },
                },
            ]
        }),
{
    assert(gpu_state::is_integrated_of_several(cards, integrated));
    lemma_pins(cards, awake, integrated, cards.len() as int, i);
}

proof fn lemma_pins(cards: Seq<CardView>, awake: bool, integrated: int, n: int, i: int)
    requires
        cards.len() >= 2,
        gpu::is_integrated(cards, integrated),
        0 <= n <= cards.len(),
    ensures
        knobs::pin_upto(cards, awake, n).len() == (if integrated < n {
            n - 1
        } else {
            n
        }),
        0 <= i < n && i != integrated ==> knobs::pin_upto(cards, awake, n)[if i < integrated {
            i
        } else {
            i - 1
        }].knobs == seq![
            Knob::Write {
                path: "/sys/class/drm/"@ + cards[i].card + "/device/"@ + "power/control"@,
                value: if awake {
                    "on"@
                } else {
                    "auto"@
                },
            },
        ],
    decreases n,
{
    if n > 0 {
        lemma_pins(cards, awake, integrated, n - 1, i);
        if gpu::is_integrated(cards, n - 1) {
            gpu::integrated_is_unique(cards, n - 1, integrated);
        }
    }
}

// ------------------------------------------------------------------- writing one knob

/// A setting that has its value already is left alone, one that is not there is skipped,
/// and only one that holds something else is written.
pub proof fn settings_are_read_before_they_are_written(content: String, value: Seq<char>)
    ensures
        knobs::checked(ReadOutcome::Content(content), value) is None <==> text::trimmed(content@)
            != value,
        knobs::checked(ReadOutcome::Content(content), value) is Some ==> knobs::checked(
            ReadOutcome::Content(content),
            value,
        ) == Some("unchanged"@),
        knobs::checked(ReadOutcome::Missing, value) == Some("skipped-missing"@),
{
}

/// A write that hardware turns down as busy, not permitted or not accessible is no error;
/// any other failure is.
pub proof fn refusals_are_no_errors(errno: Option<i32>, message: String)
    ensures
        ({
            let s = knobs::written_status(knobs::WriteOutcome::Failed { errno, message });
            let refused = errno == Some(1i32) || errno == Some(13i32) || errno == Some(16i32);
            &&& refused ==> s == "skipped-unsupported"@
            &&& !refused ==> s == "error:"@ + message@
            &&& knobs::written_status(knobs::WriteOutcome::Written) == "written"@
        }),
{
}

/// Where nothing is written, the row says why: what is not there is missing, what the
/// hardware does not offer is unsupported, and what has its value already is unchanged.
pub proof fn rows_say_why_nothing_is_written(
    p: PowerProfile,
    policies: Seq<PolicyView>,
    choices: Option<Seq<char>>,
    read: ReadOutcome,
    statuses: Seq<Option<String>>,
    writable: bool,
)
    ensures
        ({
            let platform = knobs::platform_plan(p, false, choices);
            &&& platform.label == "platform_profile"@
            &&& platform.knobs == seq![Knob::Settled("skipped-missing"@)]
            &&& knobs::platform_plan(p, true, None).knobs == seq![
                Knob::Settled("skipped-unsupported"@),
            ]
        }),
        ({
            let none = knobs::cpu_plan(p, Seq::empty());
            let plain = knobs::cpu_plan(p, policies);
            &&& none.len() == 1 && none[0].label == "cpu"@ && none[0].knobs == seq![
                Knob::Settled("skipped-missing"@),
            ]
            &&& policies.len() > 0 && !policies[0].has_epp && policies[0].driver is None ==> {
                &&& plain.len() == 2
                &&& plain[0].label == "scaling_governor"@
                &&& plain[0].knobs == seq![Knob::Settled("skipped-unsupported"@)]
                &&& plain[1].label == "energy_performance_preference"@
                &&& plain[1].knobs == seq![Knob::Settled("skipped-unsupported"@)]
            }
        }),
        knobs::boost_plan(p, false, false).label == "boost"@,
        knobs::boost_plan(p, false, false).knobs == seq![Knob::Settled("skipped-missing"@)],
        knobs::gpu_plan(p, Seq::empty(), statuses).len() == 1,
        knobs::gpu_plan(p, Seq::empty(), statuses)[0].knobs == seq![
            Knob::Settled("skipped-missing"@),
        ],
        ({
            let link = knobs::aspm_plan(p, read, writable);
            let value = if p == PowerProfile::PowerSaver {
                "powersupersave"@
            } else {
                "default"@
            };
            &&& link.label == "pcie_aspm"@
            &&& read is Missing ==> link.knobs == seq![Knob::Settled("skipped-missing"@)]
            &&& !(read is Missing) && !writable ==> link.knobs == seq![
                Knob::Settled("skipped-unsupported"@),
            ]
            &&& writable ==> (read matches ReadOutcome::Failed(m) ==> link.knobs == seq![
                Knob::Settled("error:"@ + m@),
            ])
            &&& writable ==> (read matches ReadOutcome::Content(opts) ==> {
                let words = text::words_of(opts@);
                &&& !knobs::is_option(words, value) ==> link.knobs == seq![
                    Knob::Settled("skipped-unsupported"@),
                ]
                &&& knobs::is_option(words, value) && knobs::selected(words) == Some(value)
                    ==> link.knobs == seq![Knob::Settled("unchanged"@)]
            })
        }),
{
    let chain = crate::power::chain_of(p);
    lemma_nothing_offered(chain);
    assert(knobs::platform_plan(p, true, None).knobs =~= seq![Knob::Settled("skipped-unsupported"@)]);
}

proof fn lemma_nothing_offered(chain: Seq<Seq<char>>)
    ensures
        knobs::first_offered(chain, None) is None,
    decreases chain.len(),
{
    if chain.len() > 0 {
        lemma_nothing_offered(chain.skip(1));
    }
}

} // verus!
