//! What files hold after a configuration has been applied.
use vstd::prelude::*;

use crate::accounts::AccountView;
use crate::apply;
use crate::boot;
use crate::boot::RunAnswers;
use crate::cli::OptionsView;
use crate::config;
use crate::config::WriteFile;
use crate::effect;
use crate::effect::EffectView;
use crate::ssh_keys;
use crate::text;

verus! {

/// Effects that only print leave every file as it is.
pub proof fn talk_changes_no_file(files: Map<Seq<char>, Seq<u8>>, list: Seq<EffectView>)
    requires
        effect::only_talk(list),
    ensures
        effect::files_after(files, list) == files,
    decreases list.len(),
{
    if list.len() > 0 {
        let head = list.drop_last();
        assert(effect::only_talk(head)) by {
            assert forall|i: int| 0 <= i < head.len() implies (#[trigger] head[i]) is Say by {
                assert(list[i] is Say);
            }
        }
        talk_changes_no_file(files, head);
        assert(list[list.len() - 1] is Say);
    }
}

/// Effects performed one list after the other.
pub proof fn lists_in_turn(
    files: Map<Seq<char>, Seq<u8>>,
    first: Seq<EffectView>,
    more: Seq<EffectView>,
)
    ensures
        effect::files_after(files, first + more) == effect::files_after(
            effect::files_after(files, first),
            more,
        ),
    decreases more.len(),
{
    if more.len() == 0 {
        assert(first + more =~= first);
    } else {
        lists_in_turn(files, first, more.drop_last());
        assert((first + more).drop_last() =~= first + more.drop_last());
    }
}

/// What a file holds, nothing if there is none.
pub open spec fn held(files: Map<Seq<char>, Seq<u8>>, path: Seq<char>) -> Seq<u8> {
    if files.contains_key(path) {
        files[path]
    } else {
        Seq::<u8>::empty()
    }
}

proof fn lemma_one(files: Map<Seq<char>, Seq<u8>>, e: EffectView)
    ensures
        effect::files_after(files, seq![e]) == match e {
            EffectView::Write { path, data } => files.insert(path, data),
            EffectView::Append { path, data } => files.insert(path, held(files, path) + data),
            _ => files,
        },
{
    assert(seq![e].drop_last() =~= Seq::<EffectView>::empty());
    assert(effect::files_after(files, Seq::<EffectView>::empty()) == files);
}

proof fn lemma_store(files: Map<Seq<char>, Seq<u8>>, f: WriteFile, data: Seq<u8>, mode: u32)
    ensures
        effect::files_after(files, apply::store_effects(f, data, mode)) == files.insert(
            f.path@,
            if f.append {
                held(files, f.path@) + data
            } else {
                data
            },
        ),
{
    let parent = EffectView::MakeParent(f.path@);
    let write = if f.append {
        EffectView::Append { path: f.path@, data }
    } else {
        EffectView::Write { path: f.path@, data }
    };
    let list = apply::store_effects(f, data, mode);
    let tail = list.skip(2);
    assert(list =~= seq![parent] + seq![write] + tail);
    lists_in_turn(files, seq![parent] + seq![write], tail);
    lists_in_turn(files, seq![parent], seq![write]);
    lemma_tail(files, seq![parent]);
    lemma_one(files, write);
    let written = effect::files_after(files, seq![write]);
    assert(tail[0] is Chmod);
    lemma_tail(written, tail);
}

proof fn lemma_tail(files: Map<Seq<char>, Seq<u8>>, list: Seq<EffectView>)
    requires
        forall|i: int|
            0 <= i < list.len() ==> !((#[trigger] list[i]) is Write) && !(list[i] is Append),
    ensures
        effect::files_after(files, list) == files,
    decreases list.len(),
{
    if list.len() > 0 {
        let head = list.drop_last();
        assert forall|i: int| 0 <= i < head.len() implies !((#[trigger] head[i]) is Write)
            && !(head[i] is Append) by {
            assert(head[i] == list[i]);
        }
        lemma_tail(files, head);
        assert(!(list[list.len() - 1] is Write));
    }
}

/// A file holds what was written to it, behind what it held before if that is
/// asked for; every other file is left as it is.
pub proof fn written_file_holds_its_content(f: WriteFile, files: Map<Seq<char>, Seq<u8>>)
    requires
        apply::file_plan(f, false) is Ok,
    ensures
        config::decoded_content(f.content@, text::opt_text(f.encoding)) matches Ok(data)
            && effect::files_after(files, apply::file_plan(f, false)->Ok_0) == files.insert(
            f.path@,
            if f.append {
                held(files, f.path@) + data
            } else {
                data
            },
        ),
{
    let data = config::decoded_content(f.content@, text::opt_text(f.encoding))->Ok_0;
    lemma_store(files, f, data, config::mode_of(f.mode_arg())->Ok_0);
}

/// Writing a file and then adding to it leaves the one content behind the
/// other.
pub proof fn write_then_append(a: WriteFile, b: WriteFile, files: Map<Seq<char>, Seq<u8>>)
    requires
        apply::file_plan(a, false) is Ok,
        apply::file_plan(b, false) is Ok,
        a.path@ == b.path@,
        !a.append,
        b.append,
    ensures
        effect::files_after(
            files,
            apply::file_plan(a, false)->Ok_0 + apply::file_plan(b, false)->Ok_0,
        )[a.path@] == config::decoded_content(a.content@, text::opt_text(a.encoding))->Ok_0
            + config::decoded_content(b.content@, text::opt_text(b.encoding))->Ok_0,
{
    let first = apply::file_plan(a, false)->Ok_0;
    lists_in_turn(files, first, apply::file_plan(b, false)->Ok_0);
    written_file_holds_its_content(a, files);
    written_file_holds_its_content(b, effect::files_after(files, first));
}

/// A dry run of writing a file changes no file.
pub proof fn dry_run_of_a_file_changes_none(f: WriteFile, files: Map<Seq<char>, Seq<u8>>)
    requires
        apply::file_plan(f, true) is Ok,
    ensures
        effect::files_after(files, apply::file_plan(f, true)->Ok_0) == files,
{
    talk_changes_no_file(files, apply::file_plan(f, true)->Ok_0);
}

/// Run once per instance: once an instance has been recorded, another run finds
/// its record.
pub proof fn recorded_instance_is_found(
    files: Map<Seq<char>, Seq<u8>>,
    o: OptionsView,
    id: Seq<char>,
    version: Seq<char>,
)
    requires
        !o.dry_run,
    ensures
        ({
            let after = effect::files_after(files, boot::record_effects(o, id, version));
            let marker = held(after, boot::marker_file(o.state_dir));
            &&& vstd::utf8::valid_utf8(marker)
            &&& boot::is_recorded(Some(vstd::utf8::decode_utf8(marker)), id)
        }),
{
    let list = boot::record_effects(o, id, version);
    let content = boot::marker_content(id);
    vstd::utf8::encode_utf8_valid_utf8(content);
    vstd::utf8::encode_utf8_decode_utf8(content);
    boot::marker_names_its_instance(id, id);
    reveal_with_fuel(effect::files_after, 4);
    assert(list.drop_last().last() == EffectView::Write {
        path: boot::marker_file(o.state_dir),
        data: effect::file_bytes(content),
    });
}

/// Run once per instance: after a run has applied a seed and recorded the
/// instance, a second run with the same meta-data applies nothing.
pub proof fn second_run_applies_nothing(
    files: Map<Seq<char>, Seq<u8>>,
    o: OptionsView,
    first: RunAnswers,
    second: RunAnswers,
    version: Seq<char>,
)
    requires
        !o.force,
        !o.dry_run,
        boot::whole_run(o, first, version).applies is Some,
        first.applied is Ok,
        second.found == first.found,
        second.meta == first.meta,
        ({
            let after = effect::files_after(files, boot::whole_run(o, first, version).after);
            second.marker == Some(
                vstd::utf8::decode_utf8(held(after, boot::marker_file(o.state_dir))),
            )
        }),
    ensures
        boot::whole_run(o, second, version).applies is None,
{
    boot::when_a_seed_is_applied(o, first, version);
    boot::when_a_seed_is_applied(o, second, version);
    boot::recorded_only_once_applied(o, first, version);
    let meta = boot::whole_run(o, first, version).applies->Some_0.1;
    recorded_instance_is_found(files, o, boot::id_of(meta), version);
}

/// Once keys have been installed, the key file of the account holds each of
/// them that is not blank and has no line break within it.
pub proof fn installed_keys_can_log_in(
    files: Map<Seq<char>, Seq<u8>>,
    user: Seq<char>,
    keys: Seq<Seq<char>>,
    a: AccountView,
    content: Seq<char>,
    i: int,
)
    requires
        0 <= i < keys.len(),
        text::trim(keys[i]).len() > 0,
        ssh_keys::one_line(text::trim(keys[i])),
    ensures
        ({
            let after = effect::files_after(
                files,
                ssh_keys::keys_installed(user, keys, a, content),
            );
            let file = held(after, ssh_keys::key_file(a.home));
            &&& vstd::utf8::valid_utf8(file)
            &&& ssh_keys::has_key(vstd::utf8::decode_utf8(file), text::trim(keys[i]))
        }),
{
    let list = ssh_keys::keys_installed(user, keys, a, content);
    let merged = ssh_keys::merged(content, keys);
    vstd::utf8::encode_utf8_valid_utf8(merged);
    vstd::utf8::encode_utf8_decode_utf8(merged);
    ssh_keys::merged_keys_are_there(content, keys, i);
    let front = list.take(2);
    let write = list[2];
    let tail = list.skip(3);
    assert(list =~= front + seq![write] + tail);
    lists_in_turn(files, front + seq![write], tail);
    lists_in_turn(files, front, seq![write]);
    lemma_one(effect::files_after(files, front), write);
    lemma_tail(effect::files_after(effect::files_after(files, front), seq![write]), tail);
}

} // verus!
