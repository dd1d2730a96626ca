// The names by which contexts are classified, taken from numbered
// environment variables: KCWRAP_PROD1, KCWRAP_PROD2, ... and likewise for
// TEST and DEV.

use crate::text::{decimal, push_decimal};
use vstd::prelude::*;
use vstd::string::*;

verus! {

/// At most this many names are read per environment.
pub const MAX_NAMES: u8 = 50;

/// The three kinds of environment that names can be configured for.
#[derive(Clone, Copy, Debug, PartialEq, Eq, Structural)]
pub enum Env {
    Prod,
    Test,
    Dev,
}

/// The configured names of each kind of environment, in the order of their
/// variables' numbers.
#[derive(Debug, PartialEq, Eq)]
pub struct Config {
    pub prod_name: Vec<String>,
    pub test_name: Vec<String>,
    pub dev_name: Vec<String>,
}

/// What a `Config` holds, as plain texts.
pub struct NameLists {
    pub prod: Seq<Seq<char>>,
    pub test: Seq<Seq<char>>,
    pub dev: Seq<Seq<char>>,
}

impl View for Config {
    type V = NameLists;

    open spec fn view(&self) -> NameLists {
        NameLists {
            prod: self.prod_name.deep_view(),
            test: self.test_name.deep_view(),
            dev: self.dev_name.deep_view(),
        }
    }
}

/// The letters that stand for `env` in a variable's name.
pub open spec fn env_tag(env: Env) -> Seq<char> {
    match env {
        Env::Prod => "PROD"@,
        Env::Test => "TEST"@,
        Env::Dev => "DEV"@,
    }
}

/// The name of the variable that holds the `num`-th name of `env`.
pub open spec fn variable_name(env: Env, num: nat) -> Seq<char> {
    "KCWRAP_"@ + env_tag(env) + decimal(num)
}

/// The value that a snapshot of the environment gives to `name`: that of the
/// first pair so named, and the empty text where there is none.
pub open spec fn env_value(vars: Seq<(Seq<char>, Seq<char>)>, name: Seq<char>) -> Seq<char>
    decreases vars.len(),
{
    if vars.len() == 0 {
        Seq::empty()
    } else if vars.first().0 == name {
        vars.first().1
    } else {
        env_value(vars.drop_first(), name)
    }
}

/// The values of the variables of `env` numbered `from`, `from + 1`, ...,
/// up to the first that is missing or empty, and no further than number
/// `MAX_NAMES`.
pub open spec fn names_from(vars: Seq<(Seq<char>, Seq<char>)>, env: Env, from: nat) -> Seq<
    Seq<char>,
>
    decreases MAX_NAMES + 1 - from,
{
    if from > MAX_NAMES {
        Seq::empty()
    } else {
        let value = env_value(vars, variable_name(env, from));
        if value.len() == 0 {
            Seq::empty()
        } else {
            seq![value] + names_from(vars, env, from + 1)
        }
    }
}

/// The names configured for `env`: numbering starts at 1.
pub open spec fn configured_names(vars: Seq<(Seq<char>, Seq<char>)>, env: Env) -> Seq<Seq<char>> {
    names_from(vars, env, 1)
}

/// Builds the name of the variable that holds the `num`-th name of `env`.
pub fn get_env_string(env: &Env, num: u8) -> (name: String)
    ensures
        name@ == variable_name(*env, num as nat),
{
    let mut name = String::from_str("KCWRAP_");
    match env {
        Env::Dev => name.append("DEV"),
        Env::Test => name.append("TEST"),
        Env::Prod => name.append("PROD"),
    }
    push_decimal(&mut name, num as u32);
    name
}

/// Looks `name` up in a snapshot of the environment.
pub fn lookup_env(vars: &Vec<(String, String)>, name: &String) -> (value: String)
    ensures
        value@ == env_value(vars.deep_view(), name@),
{
    let ghost all = vars.deep_view();
    let mut i: usize = 0;
    assert(all.subrange(0, all.len() as int) =~= all);
    while i < vars.len()
        invariant
            i <= vars.len(),
            all == vars.deep_view(),
            env_value(all, name@) == env_value(all.subrange(i as int, all.len() as int), name@),
        decreases vars.len() - i,
    {
        let ghost rest = all.subrange(i as int, all.len() as int);
        assert(rest.first() == all[i as int]);
        assert(all[i as int] == (vars@[i as int].0@, vars@[i as int].1@));
        assert(rest.drop_first() =~= all.subrange(i + 1, all.len() as int));
        if vars[i].0 == *name {
            return vars[i].1.clone();
        }
        i += 1;
    }
    assert(all.subrange(i as int, all.len() as int).len() == 0);
    String::new()
}

/// Appends to `env_list` the names configured for `env`.
pub fn get_env(env: &Env, vars: &Vec<(String, String)>, env_list: &mut Vec<String>)
    ensures
        final(env_list).deep_view() == old(env_list).deep_view() + configured_names(
            vars.deep_view(),
            *env,
        ),
{
    let ghost before = env_list.deep_view();
    let ghost all = vars.deep_view();
    let mut i: u8 = 1;
    assert(before + names_from(all, *env, 1) =~= env_list.deep_view() + names_from(all, *env, 1));
    while i <= MAX_NAMES
        invariant
            1 <= i <= MAX_NAMES + 1,
            all == vars.deep_view(),
            before == old(env_list).deep_view(),
            before + names_from(all, *env, 1) == env_list.deep_view() + names_from(
                all,
                *env,
                i as nat,
            ),
        decreases MAX_NAMES + 1 - i,
    {
        let env_string = get_env_string(env, i);
        let env_var = lookup_env(vars, &env_string);
        if env_var.as_str().is_empty() {
            assert(names_from(all, *env, i as nat) =~= Seq::<Seq<char>>::empty());
            assert(env_list.deep_view() + Seq::<Seq<char>>::empty() =~= env_list.deep_view());
            return ;
        }
        let ghost held = env_list.deep_view();
        let ghost value = env_var@;
        env_list.push(env_var);
        proof {
            assert(env_list.deep_view() =~= held.push(value));
            assert(held + (seq![value] + names_from(all, *env, (i + 1) as nat)) =~= held.push(value)
                + names_from(all, *env, (i + 1) as nat));
        }
        i += 1;
    }
    assert(names_from(all, *env, i as nat) =~= Seq::<Seq<char>>::empty());
    assert(env_list.deep_view() + Seq::<Seq<char>>::empty() =~= env_list.deep_view());
}

/// Reads the configuration out of a snapshot of the environment: for each
/// kind of environment the values of its numbered variables, from number 1
/// up to the first that is missing or empty.
pub fn init_config_from_env(vars: &Vec<(String, String)>) -> (config: Config)
    ensures
        config@.prod == configured_names(vars.deep_view(), Env::Prod),
        config@.test == configured_names(vars.deep_view(), Env::Test),
        config@.dev == configured_names(vars.deep_view(), Env::Dev),
{
    let mut prod_name_list = Vec::<String>::new();
    let mut test_name_list = Vec::<String>::new();
    let mut dev_name_list = Vec::<String>::new();
    let ghost all = vars.deep_view();
    proof {
        let empty = Seq::<Seq<char>>::empty();
        assert(prod_name_list.deep_view() =~= empty);
        assert(test_name_list.deep_view() =~= empty);
        assert(dev_name_list.deep_view() =~= empty);
        assert(empty + configured_names(all, Env::Prod) =~= configured_names(all, Env::Prod));
        assert(empty + configured_names(all, Env::Test) =~= configured_names(all, Env::Test));
        assert(empty + configured_names(all, Env::Dev) =~= configured_names(all, Env::Dev));
    }

    get_env(&Env::Dev, vars, &mut dev_name_list);
    get_env(&Env::Test, vars, &mut test_name_list);
    get_env(&Env::Prod, vars, &mut prod_name_list);

    Config { prod_name: prod_name_list, test_name: test_name_list, dev_name: dev_name_list }
}

} // verus!
