//! Laws of the command line: what each argument sets, and how arguments follow each other.

use crate::cli::{read, ArgsView, CliErrorView};
use crate::cli::{setting_of, switch_of, Setting, Switch};
use crate::text::parsed_unsigned;
use vstd::prelude::*;

verus! {

proof fn flags_differ()
    ensures
        switch_of("--list-presets"@) == Some(Switch::ListPresets),
        switch_of("--help"@) == Some(Switch::Help),
        switch_of("-h"@) == Some(Switch::Help),
        switch_of("--dry-run"@) == Some(Switch::DryRun),
        switch_of("--fail-fast"@) == Some(Switch::FailFast),
        switch_of("--preset"@) is None,
        setting_of("--preset"@) == Some(Setting::Preset),
        switch_of("--seed"@) is None,
        setting_of("--seed"@) == Some(Setting::Seed),
        switch_of("--node"@) is None,
        setting_of("--node"@) == Some(Setting::Node),
        switch_of("--profile"@) is None,
        setting_of("--profile"@) == Some(Setting::Profile),
        switch_of("--output"@) is None,
        setting_of("--output"@) == Some(Setting::Output),
        switch_of("--record"@) is None,
        setting_of("--record"@) == Some(Setting::Record),
        switch_of("--budget"@) is None,
        setting_of("--budget"@) == Some(Setting::Budget),
        switch_of("--assert-min-injected"@) is None,
        setting_of("--assert-min-injected"@) == Some(Setting::MinInjected),
        switch_of("--assert-max-injected"@) is None,
        setting_of("--assert-max-injected"@) == Some(Setting::MaxInjected),
        switch_of("--junit"@) is None,
        setting_of("--junit"@) == Some(Setting::Junit),
        switch_of("--sarif"@) is None,
        setting_of("--sarif"@) == Some(Setting::Sarif),
{
    reveal_strlit("--list-presets");
    reveal_strlit("-h");
    reveal_strlit("--help");
    reveal_strlit("--dry-run");
    reveal_strlit("--fail-fast");
    reveal_strlit("--preset");
    reveal_strlit("--seed");
    reveal_strlit("--node");
    reveal_strlit("--profile");
    reveal_strlit("--output");
    reveal_strlit("--record");
    reveal_strlit("--budget");
    reveal_strlit("--assert-min-injected");
    reveal_strlit("--assert-max-injected");
    reveal_strlit("--junit");
    reveal_strlit("--sarif");
    assert("--list-presets"@.len() == 14 && "-h"@.len() == 2 && "--help"@.len() == 6
        && "--dry-run"@.len() == 9 && "--fail-fast"@.len() == 11 && "--preset"@.len() == 8
        && "--seed"@.len() == 6 && "--node"@.len() == 6 && "--profile"@.len() == 9
        && "--output"@.len() == 8 && "--record"@.len() == 8 && "--budget"@.len() == 8
        && "--assert-min-injected"@.len() == 21 && "--assert-max-injected"@.len() == 21
        && "--junit"@.len() == 7 && "--sarif"@.len() == 7);
    assert("--help"@[2] == 'h' && "--seed"@[2] == 's' && "--node"@[2] == 'n');
    assert("--dry-run"@[2] == 'd' && "--profile"@[2] == 'p');
    assert("--preset"@[2] == 'p' && "--output"@[2] == 'o' && "--record"@[2] == 'r'
        && "--budget"@[2] == 'b');
    assert("--junit"@[2] == 'j' && "--sarif"@[2] == 's');
    assert("--assert-min-injected"@[10] == 'i' && "--assert-max-injected"@[10] == 'a');
}

proof fn one_switch(args: ArgsView, flag: Seq<char>)
    requires
        switch_of(flag) is Some,
    ensures
        read(args, seq![flag]) == Ok::<ArgsView, CliErrorView>(
            crate::cli::switched(args, switch_of(flag)->0),
        ),
{
    assert(seq![flag].skip(1) =~= Seq::empty());
    reveal_with_fuel(read, 2);
}

proof fn one_setting(args: ArgsView, flag: Seq<char>, raw: Seq<char>)
    requires
        switch_of(flag) is None,
        setting_of(flag) is Some,
    ensures
        read(args, seq![flag, raw]) == crate::cli::set(args, setting_of(flag)->0, flag, raw),
        read(args, seq![flag]) == Err::<ArgsView, CliErrorView>(CliErrorView::MissingValue(flag)),
{
    assert(seq![flag, raw].skip(2) =~= Seq::empty());
    reveal_with_fuel(read, 2);
}

/// A switch turns on what it is named after, and nothing else.
pub proof fn switches_turn_on_one_thing(args: ArgsView)
    ensures
        read(args, seq!["--list-presets"@]) == Ok::<ArgsView, CliErrorView>(
            ArgsView { list_presets: true, ..args },
        ),
        read(args, seq!["--help"@]) == Ok::<ArgsView, CliErrorView>(ArgsView { help: true, ..args }),
        read(args, seq!["-h"@]) == Ok::<ArgsView, CliErrorView>(ArgsView { help: true, ..args }),
        read(args, seq!["--dry-run"@]) == Ok::<ArgsView, CliErrorView>(
            ArgsView { dry_run: true, ..args },
        ),
        read(args, seq!["--fail-fast"@]) == Ok::<ArgsView, CliErrorView>(
            ArgsView { fail_fast: true, ..args },
        ),
        read(args, Seq::<Seq<char>>::empty()) == Ok::<ArgsView, CliErrorView>(args),
{
    flags_differ();
    one_switch(args, "--list-presets"@);
    one_switch(args, "--help"@);
    one_switch(args, "-h"@);
    one_switch(args, "--dry-run"@);
    one_switch(args, "--fail-fast"@);
}

/// A setting sets what it is named after to the value that follows it, and nothing else.
pub proof fn settings_set_one_thing(args: ArgsView, raw: Seq<char>)
    ensures
        read(args, seq!["--preset"@, raw]) == Ok::<ArgsView, CliErrorView>(
            ArgsView { preset: Some(raw), ..args },
        ),
        read(args, seq!["--node"@, raw]) == Ok::<ArgsView, CliErrorView>(
            ArgsView { node: raw, ..args },
        ),
        read(args, seq!["--profile"@, raw]) == Ok::<ArgsView, CliErrorView>(
            ArgsView { profile: Some(raw), ..args },
        ),
        read(args, seq!["--output"@, raw]) == Ok::<ArgsView, CliErrorView>(
            ArgsView { output: Some(raw), ..args },
        ),
        read(args, seq!["--record"@, raw]) == Ok::<ArgsView, CliErrorView>(
            ArgsView { record: Some(raw), ..args },
        ),
        read(args, seq!["--budget"@, raw]) == Ok::<ArgsView, CliErrorView>(
            ArgsView { budget: Some(raw), ..args },
        ),
        read(args, seq!["--junit"@, raw]) == Ok::<ArgsView, CliErrorView>(
            ArgsView { junit: Some(raw), ..args },
        ),
        read(args, seq!["--sarif"@, raw]) == Ok::<ArgsView, CliErrorView>(
            ArgsView { sarif: Some(raw), ..args },
        ),
{
    flags_differ();
    one_setting(args, "--preset"@, raw);
    one_setting(args, "--node"@, raw);
    one_setting(args, "--profile"@, raw);
    one_setting(args, "--output"@, raw);
    one_setting(args, "--record"@, raw);
    one_setting(args, "--budget"@, raw);
    one_setting(args, "--junit"@, raw);
    one_setting(args, "--sarif"@, raw);
}

/// A setting that takes a number sets it to the number that follows, and refuses anything else
/// by naming the flag and the text.
pub proof fn numeric_settings_take_numbers(args: ArgsView, raw: Seq<char>)
    ensures
        match parsed_unsigned(raw, 0xFFFF_FFFF_FFFF_FFFF) {
            Some(n) => {
                &&& read(args, seq!["--seed"@, raw]) == Ok::<ArgsView, CliErrorView>(
                    ArgsView { seed: n as u64, ..args },
                )
                &&& read(args, seq!["--assert-min-injected"@, raw]) == Ok::<ArgsView, CliErrorView>(
                    ArgsView { assert_min_injected: Some(n as u64), ..args },
                )
                &&& read(args, seq!["--assert-max-injected"@, raw]) == Ok::<ArgsView, CliErrorView>(
                    ArgsView { assert_max_injected: Some(n as u64), ..args },
                )
            },
            None => {
                &&& read(args, seq!["--seed"@, raw]) == Err::<ArgsView, CliErrorView>(
                    CliErrorView::NotANumber("--seed"@, raw),
                )
                &&& read(args, seq!["--assert-min-injected"@, raw]) == Err::<
                    ArgsView,
                    CliErrorView,
                >(CliErrorView::NotANumber("--assert-min-injected"@, raw))
                &&& read(args, seq!["--assert-max-injected"@, raw]) == Err::<
                    ArgsView,
                    CliErrorView,
                >(CliErrorView::NotANumber("--assert-max-injected"@, raw))
            },
        },
{
    flags_differ();
    one_setting(args, "--seed"@, raw);
    one_setting(args, "--assert-min-injected"@, raw);
    one_setting(args, "--assert-max-injected"@, raw);
}

/// A flag that stands last and takes a value is refused for want of it.
pub proof fn settings_need_a_value(args: ArgsView)
    ensures
        forall|flag: Seq<char>|
            flag == "--preset"@ || flag == "--seed"@ || flag == "--node"@ || flag == "--profile"@
                || flag == "--output"@ || flag == "--record"@ || flag == "--budget"@ || flag
                == "--assert-min-injected"@ || flag == "--assert-max-injected"@ || flag
                == "--junit"@ || flag == "--sarif"@ ==> #[trigger] read(args, seq![flag]) == Err::<
                ArgsView,
                CliErrorView,
            >(CliErrorView::MissingValue(flag)),
{
    flags_differ();
    assert forall|flag: Seq<char>|
        flag == "--preset"@ || flag == "--seed"@ || flag == "--node"@ || flag == "--profile"@
            || flag == "--output"@ || flag == "--record"@ || flag == "--budget"@ || flag
            == "--assert-min-injected"@ || flag == "--assert-max-injected"@ || flag == "--junit"@
            || flag == "--sarif"@ implies #[trigger] read(args, seq![flag]) == Err::<
        ArgsView,
        CliErrorView,
    >(CliErrorView::MissingValue(flag)) by {
        one_setting(args, flag, Seq::empty());
    }
}

/// Any other argument is refused by its name.
pub proof fn other_arguments_are_refused(args: ArgsView, token: Seq<char>, rest: Seq<Seq<char>>)
    requires
        token != "--list-presets"@,
        token != "-h"@,
        token != "--help"@,
        token != "--dry-run"@,
        token != "--fail-fast"@,
        token != "--preset"@,
        token != "--seed"@,
        token != "--node"@,
        token != "--profile"@,
        token != "--output"@,
        token != "--record"@,
        token != "--budget"@,
        token != "--assert-min-injected"@,
        token != "--assert-max-injected"@,
        token != "--junit"@,
        token != "--sarif"@,
    ensures
        read(args, seq![token] + rest) == Err::<ArgsView, CliErrorView>(
            CliErrorView::Unrecognised(token),
        ),
{
    assert((seq![token] + rest)[0] == token);
}

/// Arguments are read from left to right: what follows arguments that could be read starts from
/// what those gave, so that a later one replaces an earlier one; and an argument that was
/// refused stays refused whatever follows, unless it only lacked its value.
pub proof fn arguments_follow_each_other(args: ArgsView, a: Seq<Seq<char>>, b: Seq<Seq<char>>)
    ensures
        match read(args, a) {
            Ok(next) => read(args, a + b) == read(next, b),
            Err(CliErrorView::MissingValue(_)) => true,
            Err(e) => read(args, a + b) == Err::<ArgsView, CliErrorView>(e),
        },
    decreases a.len(),
{
    let all = a + b;
    if a.len() == 0 {
        assert(all =~= b);
    } else {
        assert(all[0] == a[0]);
        assert(all.skip(1) =~= a.skip(1) + b);
        if a.len() > 1 {
            assert(all[1] == a[1]);
            assert(all.skip(2) =~= a.skip(2) + b);
        }
        match switch_of(a[0]) {
            Some(switch) => {
                arguments_follow_each_other(crate::cli::switched(args, switch), a.skip(1), b);
            },
            None => match setting_of(a[0]) {
                None => {},
                Some(setting) => {
                    if a.len() > 1 {
                        if let Ok(next) = crate::cli::set(args, setting, a[0], a[1]) {
                            arguments_follow_each_other(next, a.skip(2), b);
                        }
                    }
                },
            },
        }
    }
}

} // verus!
