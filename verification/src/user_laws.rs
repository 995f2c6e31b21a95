//! What holds of setting up any user.
use vstd::prelude::*;

use crate::accounts;
use crate::apply;
use crate::apply::UserView;
use crate::config::{SudoVal, UserEntry, UserSpec};
use crate::effect::EffectView;
use crate::number;
use crate::text;

verus! {

/// The effect that hands a password hash over.
pub open spec fn hands_over(name: Seq<char>, hash: Seq<char>) -> EffectView {
    EffectView::SetPassword {
        input: name + ":"@ + hash + "\n"@,
        exit_name: "chpasswd -e for '"@ + name + "'"@,
        success: "tinycloudinit: password set for '"@ + name + "'"@,
    }
}

/// Whether an effect runs `program` with `args` and fails the run if that fails.
pub open spec fn runs(e: EffectView, program: Seq<char>, args: Seq<Seq<char>>) -> bool {
    e matches EffectView::Run(c) && c.program == program && c.args == args && c.fatal
        && c.success is None
}

/// Whether an effect of a list runs `program`, with whatever arguments.
pub open spec fn some_run(list: Seq<EffectView>, program: Seq<char>) -> bool {
    exists|i: int|
        0 <= i < list.len() && (#[trigger] list[i] matches EffectView::Run(c) && c.program
            == program)
}

/// A user with a password hash is given it, whether or not the account is there
/// already, right behind what creates the account. It is unlocked right after
/// that exactly if the password is asked not to be locked. Without a hash neither
/// is done.
pub proof fn a_password_is_always_set(u: UserView, exists: bool)
    requires
        u.name.len() > 0,
    ensures
        ({
            let list = apply::user_effects(u, exists, false);
            &&& u.passwd matches Some(hash) ==> list.len() > 1 && list[1] == hands_over(
                u.name,
                hash,
            )
            &&& u.passwd is Some && u.lock_passwd == Some(false) ==> list.len() > 2 && runs(
                list[2],
                "usermod"@,
                seq!["-U"@, u.name],
            )
            &&& u.passwd is None ==> forall|i: int|
                0 <= i < list.len() ==> !(#[trigger] list[i] is SetPassword)
            &&& some_run(list, "usermod"@) <==> u.passwd is Some && u.lock_passwd == Some(false)
        }),
{
    reveal_strlit("usermod");
    reveal_strlit("useradd");
    assert("usermod"@[4] == 'm' && "useradd"@[4] == 'a');
    let list = apply::user_effects(u, exists, false);
    if u.passwd is Some && u.lock_passwd == Some(false) {
        assert(list[2] is Run);
    }
}

/// Whether the account is there already makes a difference to the first effect
/// only: it is created if it is not there, and otherwise that is said.
pub proof fn an_account_is_created_once(u: UserView, dry_run: bool)
    requires
        u.name.len() > 0,
    ensures
        ({
            let old = apply::user_effects(u, true, dry_run);
            let new = apply::user_effects(u, false, dry_run);
            &&& old.len() > 0
            &&& old[0] == EffectView::Say(
                "tinycloudinit: user '"@ + u.name + "' already exists"@,
            )
            &&& old.skip(1) == new.skip(1)
            &&& old.len() == new.len()
            &&& !some_run(old, "useradd"@)
            &&& !dry_run ==> new[0] is Run && new[0]->Run_0.program == "useradd"@
                && new[0]->Run_0.fatal
        }),
{
    reveal_strlit("usermod");
    reveal_strlit("useradd");
    assert("usermod"@[4] == 'm' && "useradd"@[4] == 'a');
    let old = apply::user_effects(u, true, dry_run);
    let new = apply::user_effects(u, false, dry_run);
    assert(old.skip(1) =~= new.skip(1));
}

/// The arguments of `useradd` begin with the kind of account and end in the
/// name. Each thing that is given of the user adds an option with its value, the
/// later ones behind the earlier ones, and nothing else does.
pub proof fn each_thing_adds_an_option(u: UserView, value: Seq<char>)
    ensures
        ({
            let bare = UserView { gecos: None, shell: None, homedir: None, groups: None, ..u };
            let kind = if u.system == Some(true) {
                "--system"@
            } else {
                "-m"@
            };
            let without = |v: UserView| apply::useradd_args(v).drop_last();
            &&& apply::useradd_args(u).last() == u.name
            &&& apply::useradd_args(u)[0] == kind
            &&& apply::useradd_args(bare) == seq![kind, u.name]
            &&& without(UserView { gecos: Some(value), ..bare }) == without(bare) + seq![
                "-c"@,
                value,
            ]
            &&& without(UserView { shell: Some(value), homedir: None, groups: None, ..u })
                == without(UserView { shell: None, homedir: None, groups: None, ..u }) + seq![
                "-s"@,
                value,
            ]
            &&& without(UserView { homedir: Some(value), groups: None, ..u }) == without(
                UserView { homedir: None, groups: None, ..u },
            ) + seq!["-d"@, value]
            &&& value.len() > 0 ==> without(UserView { groups: Some(value), ..u }) == without(
                UserView { groups: None, ..u },
            ) + seq!["-G"@, value]
            &&& without(UserView { groups: Some(Seq::<char>::empty()), ..u }) == without(
                UserView { groups: None, ..u },
            )
        }),
{
    let bare = UserView { gecos: None, shell: None, homedir: None, groups: None, ..u };
    let without = |v: UserView| apply::useradd_args(v).drop_last();
    assert(apply::useradd_args(bare) =~= seq![
        if u.system == Some(true) {
            "--system"@
        } else {
            "-m"@
        },
        u.name,
    ]);
    assert(without(UserView { gecos: Some(value), ..bare }) =~= without(bare) + seq!["-c"@, value]);
    let s = UserView { shell: None, homedir: None, groups: None, ..u };
    assert(without(UserView { shell: Some(value), ..s }) =~= without(s) + seq!["-s"@, value]);
    let h = UserView { homedir: None, groups: None, ..u };
    assert(without(UserView { homedir: Some(value), ..h }) =~= without(h) + seq!["-d"@, value]);
    let g = UserView { groups: None, ..u };
    if value.len() > 0 {
        assert(without(UserView { groups: Some(value), ..u }) =~= without(g) + seq!["-G"@, value]);
    }
    assert(without(UserView { groups: Some(Seq::<char>::empty()), ..u }) =~= without(g));
}

/// The account is created with the arguments of the user.
pub proof fn created_as_asked(u: UserView)
    requires
        u.name.len() > 0,
    ensures
        runs(apply::user_effects(u, false, false)[0], "useradd"@, apply::useradd_args(u)),
{
}

/// Sudo rules, where any are given, are written to the file of the user, which
/// only root and its group may then read; otherwise no file is written.
pub proof fn sudo_rules_are_written(u: UserView, exists: bool, rules: Seq<Seq<char>>)
    requires
        u.name.len() > 0,
    ensures
        ({
            let with = apply::user_effects(UserView { sudo: Some(rules), ..u }, exists, false);
            let without = apply::user_effects(UserView { sudo: None, ..u }, exists, false);
            let path = apply::sudoers_path(u.name);
            let at = if u.keys.len() > 0 {
                without.len() - 1
            } else {
                without.len() as int
            };
            &&& with.len() == without.len() + 4
            &&& with.take(at) == without.take(at)
            &&& with[at] is MakeDir && with[at]->MakeDir_path == "/etc/sudoers.d"@
            &&& with[at + 1] == (EffectView::Write {
                path,
                data: vstd::utf8::encode_utf8(apply::sudoers_content(u.name, rules)),
            })
            &&& with[at + 2] == (EffectView::Chmod { path, mode: 288 })
            &&& with[at + 3] is Say
            &&& with.skip(at + 4) == without.skip(at)
            &&& forall|i: int| 0 <= i < without.len() ==> !(#[trigger] without[i] is Write)
        }),
{
    let with = apply::user_effects(UserView { sudo: Some(rules), ..u }, exists, false);
    let without = apply::user_effects(UserView { sudo: None, ..u }, exists, false);
    let at = if u.keys.len() > 0 {
        without.len() - 1
    } else {
        without.len() as int
    };
    assert(with.take(at) =~= without.take(at));
    assert(with.skip(at + 4) =~= without.skip(at));
}

/// Each sudo rule is a line with the name of the user in front, in the order in
/// which they are given.
pub proof fn a_line_for_each_rule(name: Seq<char>, rules: Seq<Seq<char>>, rule: Seq<char>)
    ensures
        apply::sudoers_content(name, Seq::<Seq<char>>::empty()) == Seq::<char>::empty(),
        apply::sudoers_content(name, rules.push(rule)) == apply::sudoers_content(name, rules) + (
        name + " "@ + rule + "\n"@),
{
    assert(rules.push(rule).drop_last() =~= rules);
    assert(apply::sudoers_content(name, rules.push(rule)) =~= apply::sudoers_content(name, rules)
        + (name + " "@ + rule + "\n"@));
}

/// The name of the sudoers file has the letters, digits, hyphens and underscores
/// of the name of the user, in their order.
pub proof fn the_file_is_named_after_the_user(name: Seq<char>, c: char)
    ensures
        apply::sudoers_path(Seq::<char>::empty()) == "/etc/sudoers.d/90-tinycloudinit-"@,
        ('a' <= c <= 'z' || 'A' <= c <= 'Z' || '0' <= c <= '9' || c == '-' || c == '_')
            ==> apply::sudoers_path(name.push(c)) == apply::sudoers_path(name).push(c),
        !('a' <= c <= 'z' || 'A' <= c <= 'Z' || '0' <= c <= '9' || c == '-' || c == '_')
            ==> apply::sudoers_path(name.push(c)) == apply::sudoers_path(name),
{
    reveal(Seq::filter);
    let front = "/etc/sudoers.d/90-tinycloudinit-"@;
    let none = Seq::<char>::empty();
    assert(none.filter(|c: char| apply::plain(c)) =~= none);
    assert(front + none =~= front);
    assert(name.push(c).drop_last() =~= name);
    let kept = name.filter(|c: char| apply::plain(c));
    assert(front + kept.push(c) =~= (front + kept).push(c));
}

/// Keys, where any are given, are installed for the user, all of them and last
/// of all.
pub proof fn keys_are_installed_last(u: UserView, exists: bool)
    requires
        u.name.len() > 0,
    ensures
        ({
            let list = apply::user_effects(u, exists, false);
            &&& u.keys.len() > 0 <==> list.last() == (EffectView::InstallKeys {
                user: u.name,
                keys: u.keys,
            })
            &&& forall|i: int|
                0 <= i < list.len() && (#[trigger] list[i] is InstallKeys) ==> u.keys.len() > 0 && i
                    == list.len() - 1
        }),
{
}

/// A dry run says as much about a user as a run does: it names the password, the
/// sudoers file and the keys that would be set up.
pub proof fn a_dry_run_names_everything(u: UserView, exists: bool)
    requires
        u.name.len() > 0,
    ensures
        ({
            let list = apply::user_effects(u, exists, true);
            &&& list.len() == 1 + (if u.passwd is Some {
                1int
            } else {
                0
            }) + (if u.passwd is Some && u.lock_passwd == Some(false) {
                1int
            } else {
                0
            }) + (if u.sudo is Some {
                1int
            } else {
                0
            }) + (if u.keys.len() > 0 {
                1int
            } else {
                0
            })
            &&& !exists ==> list[0] == EffectView::Say(
                "DRY: "@ + ("useradd"@ + " "@ + text::join(apply::useradd_args(u), " "@)),
            )
            &&& u.passwd is Some ==> list[1] == EffectView::Say(
                "DRY: would set password hash for '"@ + u.name + "'"@,
            )
            &&& u.keys.len() > 0 ==> list.last() == EffectView::Say(
                "DRY: would install "@ + number::decimal(u.keys.len() as int)
                    + " ssh key(s) for '"@ + u.name + "'"@,
            )
            &&& u.sudo is Some && u.keys.len() == 0 ==> list.last() == EffectView::Say(
                "DRY: would write "@ + apply::sudoers_path(u.name),
            )
        }),
{
}

/// An entry without a name is passed over, and so is the entry `default`.
pub proof fn entries_that_are_passed_over(
    u: UserView,
    entry: UserEntry,
    exists: bool,
    dry_run: bool,
    passwd: Option<Seq<char>>,
)
    ensures
        u.name.len() == 0 ==> apply::user_effects(u, exists, dry_run) == seq![
            EffectView::Say("tinycloudinit: users: entry without name ignored"@),
        ],
        (entry matches UserEntry::Name(n) && n@ == "default"@) ==> apply::entry_effects(
            entry,
            passwd,
            dry_run,
        ) == seq![
            EffectView::Say(
                "tinycloudinit: users: 'default' entry ignored (no default user concept)"@,
            ),
        ],
{
}

/// Any other name stands for a user of whom nothing else is given; a user is
/// taken to exist exactly if there is an account of that name.
pub proof fn an_entry_is_set_up(entry: UserEntry, passwd: Option<Seq<char>>, dry_run: bool)
    ensures
        ({
            let list = apply::entry_effects(entry, passwd, dry_run);
            &&& (entry matches UserEntry::Name(n) && n@ != "default"@ && n@.len() > 0) ==> {
                let name = entry->Name_0@;
                &&& list.len() == 1
                &&& accounts::account(passwd, name) is Some ==> list[0] is Say
                &&& accounts::account(passwd, name) is None && !dry_run ==> runs(
                    list[0],
                    "useradd"@,
                    seq!["-m"@, name],
                )
            }
            &&& entry matches UserEntry::Spec(s) ==> list == apply::user_effects(
                s@,
                accounts::account(passwd, s.name@) is Some,
                dry_run,
            )
        }),
{
    if let UserEntry::Name(n) = entry {
        assert(apply::useradd_args(apply::bare_user(n@)) =~= seq!["-m"@, n@]);
    }
}

/// All that is given of a user counts, as it is given: a single sudo rule is a
/// list of one, and a flag in place of rules gives none.
pub proof fn what_is_given_of_a_user(s: UserSpec)
    ensures
        s@.name == s.name@,
        s.gecos matches Some(t) ==> s@.gecos == Some(t@),
        s.gecos is None ==> s@.gecos is None,
        s.shell matches Some(t) ==> s@.shell == Some(t@),
        s.shell is None ==> s@.shell is None,
        s.homedir matches Some(t) ==> s@.homedir == Some(t@),
        s.homedir is None ==> s@.homedir is None,
        s.groups matches Some(g) ==> s@.groups == Some(g.list()),
        s.groups is None ==> s@.groups is None,
        s.passwd matches Some(t) ==> s@.passwd == Some(t@),
        s.passwd is None ==> s@.passwd is None,
        s@.lock_passwd == s.lock_passwd,
        s@.system == s.system,
        s.sudo matches Some(SudoVal::Line(l)) ==> s@.sudo == Some(seq![l@]),
        s.sudo matches Some(SudoVal::Lines(v)) ==> s@.sudo is Some && s@.sudo->0.len() == v@.len()
            && forall|i: int| 0 <= i < v@.len() ==> #[trigger] s@.sudo->0[i] == v@[i]@,
        s.sudo is None ==> s@.sudo is None,
        (s.sudo matches Some(SudoVal::Enabled(_))) ==> s@.sudo is None,
        s@.keys.len() == s.ssh_authorized_keys@.len(),
        forall|i: int|
            0 <= i < s.ssh_authorized_keys@.len() ==> #[trigger] s@.keys[i]
                == s.ssh_authorized_keys@[i]@,
{
}

} // verus!
