//! What holds of every launch that is planned.

use vstd::prelude::*;

use crate::environment::{
    block_text, edited, env_edits, environment_entries, missing, with_all, without,
};
use crate::environment_laws::{
    block_entries, entry_for, environment_block, holds_variable, law_edits_remove_then_set,
    law_environment_block_reads_back, law_inherited_proxy_env_passes,
};
use crate::options::LaunchOptionsView;
use crate::plan::{debugging_args, inherited_names, planned, proxy_variables};
use crate::text::same_ignoring_ascii_case;

verus! {

/// The environment of the launched process, which starts with the changes of the plan, where two names are the same to the system if `fold`
/// makes them equal.
pub open spec fn child_env(
    options: LaunchOptionsView,
    inherited: Map<Seq<char>, Seq<char>>,
    fold: spec_fn(Seq<char>) -> Seq<char>,
) -> Map<Seq<char>, Seq<char>> {
    edited(
        inherited,
        env_edits(planned(options).proxy_env, planned(options).proxy_env_removals),
        fold,
    )
}

/// `name` is the same to the system as one of `keys`.
pub open spec fn is_among(
    name: Seq<char>,
    keys: Seq<Seq<char>>,
    fold: spec_fn(Seq<char>) -> Seq<char>,
) -> bool {
    exists|i: int| 0 <= i < keys.len() && fold(#[trigger] keys[i]) == fold(name)
}

/// Only names that differ from a proxy's name at most in the case of ASCII letters are the same to
/// the system as that name.
pub open spec fn tells_proxies_apart(fold: spec_fn(Seq<char>) -> Seq<char>) -> bool {
    forall|name: Seq<char>, i: int|
        0 <= i < inherited_names().len() && #[trigger] fold(name) == fold(
            #[trigger] inherited_names()[i],
        ) ==> same_ignoring_ascii_case(name, inherited_names()[i])
}

/// Two environments give the variable `name` the same value, or both do not have it.
pub open spec fn same_variable(
    a: Map<Seq<char>, Seq<char>>,
    b: Map<Seq<char>, Seq<char>>,
    name: Seq<char>,
    fold: spec_fn(Seq<char>) -> Seq<char>,
) -> bool {
    &&& a.dom().contains(fold(name)) == b.dom().contains(fold(name))
    &&& a.dom().contains(fold(name)) ==> a[fold(name)] == b[fold(name)]
}

/// An environment gives the variable `name` this value.
pub open spec fn has_variable(
    env: Map<Seq<char>, Seq<char>>,
    name: Seq<char>,
    value: Seq<char>,
    fold: spec_fn(Seq<char>) -> Seq<char>,
) -> bool {
    env.dom().contains(fold(name)) && env[fold(name)] == value
}

/// Every variable of an environment stands among the entries, under some spelling of its name.
pub open spec fn entries_hold(
    entries: Seq<Seq<char>>,
    env: Map<Seq<char>, Seq<char>>,
    fold: spec_fn(Seq<char>) -> Seq<char>,
) -> bool {
    forall|key: Seq<char>| #[trigger]
        env.dom().contains(key) ==> exists|name: Seq<char>|
            fold(name) == key && #[trigger] entries.contains(entry_for(name, env[key]))
}

proof fn lemma_without(
    env: Map<Seq<char>, Seq<char>>,
    keys: Seq<Seq<char>>,
    name: Seq<char>,
    fold: spec_fn(Seq<char>) -> Seq<char>,
)
    ensures
        is_among(name, keys, fold) ==> !without(env, keys, fold).dom().contains(fold(name)),
        !is_among(name, keys, fold) ==> same_variable(without(env, keys, fold), env, name, fold),
    decreases keys.len(),
{
    if keys.len() > 0 {
        let before = keys.drop_last();
        lemma_without(env, before, name, fold);
        if is_among(name, keys, fold) {
            let i = choose|i: int| 0 <= i < keys.len() && fold(#[trigger] keys[i]) == fold(name);
            if i < before.len() {
                assert(fold(before[i]) == fold(name));
            }
        } else {
            if is_among(name, before, fold) {
                let i = choose|i: int|
                    0 <= i < before.len() && fold(#[trigger] before[i]) == fold(name);
                assert(fold(keys[i]) == fold(name));
            }
            assert(fold(keys[keys.len() - 1]) != fold(name));
        }
    }
}

/// Without a proxy environment the launched process has no proxy variable under any of the names
/// under which it could inherit one, and every other variable as it was, however the system tells
/// names apart.
pub proof fn law_no_env_removes_inherited_proxies(
    options: LaunchOptionsView,
    inherited: Map<Seq<char>, Seq<char>>,
    name: Seq<char>,
    fold: spec_fn(Seq<char>) -> Seq<char>,
)
    requires
        options.no_env,
    ensures
        ({
            let env = child_env(options, inherited, fold);
            &&& is_among(name, inherited_names(), fold) ==> !env.dom().contains(fold(name))
            &&& !is_among(name, inherited_names(), fold) ==> same_variable(
                env,
                inherited,
                name,
                fold,
            )
        }),
{
    law_edits_remove_then_set(inherited, seq![], inherited_names(), fold);
    lemma_without(inherited, inherited_names(), name, fold);
}

/// The names of the proxy variables are apart from each other.
proof fn lemma_no_proxy_apart(fold: spec_fn(Seq<char>) -> Seq<char>)
    requires
        tells_proxies_apart(fold),
    ensures
        fold("NO_PROXY"@) != fold("HTTP_PROXY"@),
        fold("NO_PROXY"@) != fold("HTTPS_PROXY"@),
        fold("NO_PROXY"@) != fold("ALL_PROXY"@),
{
    reveal_strlit("HTTP_PROXY");
    reveal_strlit("HTTPS_PROXY");
    reveal_strlit("ALL_PROXY");
    reveal_strlit("NO_PROXY");
    assert("HTTP_PROXY"@.len() == 10 && "HTTPS_PROXY"@.len() == 11);
    assert("ALL_PROXY"@.len() == 9 && "NO_PROXY"@.len() == 8);
    let names = inherited_names();
    assert(names[0] == "HTTP_PROXY"@ && names[1] == "HTTPS_PROXY"@ && names[2] == "ALL_PROXY"@);
}

/// With a proxy environment the launched process has the proxy and the hosts without a proxy under
/// their names, and every other variable as it was.
pub proof fn law_proxy_env_is_set(
    options: LaunchOptionsView,
    inherited: Map<Seq<char>, Seq<char>>,
    name: Seq<char>,
    fold: spec_fn(Seq<char>) -> Seq<char>,
)
    requires
        !options.no_env,
        tells_proxies_apart(fold),
    ensures
        ({
            let env = child_env(options, inherited, fold);
            let proxies = seq!["HTTP_PROXY"@, "HTTPS_PROXY"@, "ALL_PROXY"@];
            let direct = seq!["NO_PROXY"@];
            &&& is_among(name, proxies, fold) ==> has_variable(env, name, options.proxy, fold)
            &&& is_among(name, direct, fold) ==> has_variable(env, name, options.no_proxy, fold)
            &&& !is_among(name, proxies + direct, fold) ==> same_variable(
                env,
                inherited,
                name,
                fold,
            )
        }),
{
    lemma_no_proxy_apart(fold);
    let vars = proxy_variables(options.proxy, options.no_proxy);
    law_edits_remove_then_set(inherited, vars, seq![], fold);
    assert(without(inherited, seq![], fold) == inherited);
    let three = vars.drop_last();
    let two = three.drop_last();
    let one = two.drop_last();
    assert(one.drop_last() == Seq::<(Seq<char>, Seq<char>)>::empty());
    assert(with_all(inherited, one.drop_last(), fold) == inherited);
    assert(with_all(inherited, one, fold) == inherited.insert(fold("HTTP_PROXY"@), options.proxy));
    assert(with_all(inherited, two, fold) == with_all(inherited, one, fold).insert(
        fold("HTTPS_PROXY"@),
        options.proxy,
    ));
    assert(with_all(inherited, three, fold) == with_all(inherited, two, fold).insert(
        fold("ALL_PROXY"@),
        options.proxy,
    ));
    assert(with_all(inherited, vars, fold) == with_all(inherited, three, fold).insert(
        fold("NO_PROXY"@),
        options.no_proxy,
    ));
    assert(child_env(options, inherited, fold) == with_all(inherited, vars, fold));
    let names = seq!["HTTP_PROXY"@, "HTTPS_PROXY"@, "ALL_PROXY"@] + seq!["NO_PROXY"@];
    assert(names[0] == "HTTP_PROXY"@ && names[1] == "HTTPS_PROXY"@ && names[2] == "ALL_PROXY"@
        && names[3] == "NO_PROXY"@);
}

/// A process that has the environment of a launch passes the check of that launch: whatever
/// environment was inherited, the block that holds the child's variables is read back without a
/// missing one.
pub proof fn law_launched_process_passes_the_check(
    options: LaunchOptionsView,
    inherited: Map<Seq<char>, Seq<char>>,
    fold: spec_fn(Seq<char>) -> Seq<char>,
    entries: Seq<Seq<char>>,
    behind: Seq<u8>,
)
    requires
        tells_proxies_apart(fold),
        block_entries(entries),
        entries_hold(entries, child_env(options, inherited, fold), fold),
    ensures
        missing(
            environment_entries(block_text(environment_block(entries) + behind)),
            planned(options).proxy_env,
        ).len() == 0,
{
    law_environment_block_reads_back(entries, behind);
    if !options.no_env {
        let vars = proxy_variables(options.proxy, options.no_proxy);
        let env = child_env(options, inherited, fold);
        assert forall|i: int| 0 <= i < 4 implies holds_variable(
            entries,
            (#[trigger] vars[i]).0,
            vars[i].1,
        ) by {
            let key = vars[i].0;
            law_proxy_env_is_set(options, inherited, key, fold);
            let proxies = seq!["HTTP_PROXY"@, "HTTPS_PROXY"@, "ALL_PROXY"@];
            let direct = seq!["NO_PROXY"@];
            if i < 3 {
                assert(fold(proxies[i]) == fold(key));
            } else {
                assert(fold(direct[0]) == fold(key));
            }
            assert(has_variable(env, key, vars[i].1, fold));
            let name = choose|name: Seq<char>|
                fold(name) == fold(key) && #[trigger] entries.contains(
                    entry_for(name, env[fold(key)]),
                );
            assert(inherited_names()[i] == key);
            assert(same_ignoring_ascii_case(name, key));
        }
        law_inherited_proxy_env_passes(entries, options.proxy, options.no_proxy);
    }
}

/// A launch either sets proxy variables or takes them away, and never both.
pub proof fn law_env_is_set_or_removed(options: LaunchOptionsView)
    ensures
        planned(options).proxy_env.len() == 0 <==> options.no_env,
        planned(options).proxy_env_removals.len() == 0 <==> !options.no_env,
{
}

/// The check of the environment waits some time, and only for an environment that is set; it is
/// made just where nobody asked to go without it.
pub proof fn law_check_needs_an_environment(options: LaunchOptionsView)
    ensures
        planned(options).env_check_timeout matches Some(ms) ==> ms > 0 && planned(
            options,
        ).proxy_env.len() > 0,
        planned(options).env_check_timeout is Some <==> !options.no_env && !options.no_env_check
            && options.env_check_timeout_ms > 0,
{
}

/// The proxy is the first argument of every launch, and what the user adds comes last, in order and
/// unchanged.
pub proof fn law_argument_order(options: LaunchOptionsView)
    ensures
        ({
            let args = planned(options).args;
            &&& args.len() >= 1 + options.extra_args.len()
            &&& args[0] == "--proxy-server="@ + options.proxy
            &&& args.skip(args.len() - options.extra_args.len()) == options.extra_args
        }),
{
    let args = planned(options).args;
    assert(args.skip(args.len() - options.extra_args.len()) == options.extra_args);
}

/// Origins for remote debugging do nothing without a port for it.
pub proof fn law_origins_need_a_port(options: LaunchOptionsView)
    requires
        options.remote_debugging_port is None,
    ensures
        planned(options) == planned(LaunchOptionsView { remote_allow_origins: None, ..options }),
        planned(options).args == seq!["--proxy-server="@ + options.proxy] + options.extra_args,
{
    assert(debugging_args(None, options.remote_allow_origins) == Seq::<Seq<char>>::empty());
    assert(planned(options).args == seq!["--proxy-server="@ + options.proxy] + options.extra_args);
}

} // verus!
