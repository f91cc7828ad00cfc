//! The `Cache-Control` header of an answer: whether, and for how long, it may be kept.
use vstd::prelude::*;
use vstd::string::*;
use crate::text::{chars_of, has_prefix, parse_unsigned, same_chars, slice_of, split};

verus! {

/// How long an answer is kept where it does not say, in seconds.
pub const DEFAULT_MAX_AGE: u32 = 86400;

/// What an answer says about being kept.
#[derive(Clone, Copy, PartialEq, Eq, Structural, Debug)]
pub struct CacheControl {
    /// Whether the answer may be kept.
    pub need_cache: bool,
    /// For how many seconds it is fresh.
    pub max_age: u32,
}

impl Default for CacheControl {
    fn default() -> (cc: CacheControl)
        ensures
            cc == unrestricted(),
    {
        CacheControl { need_cache: true, max_age: DEFAULT_MAX_AGE }
    }
}

/// What holds of an answer that says nothing.
pub open spec fn unrestricted() -> CacheControl {
    CacheControl { need_cache: true, max_age: DEFAULT_MAX_AGE }
}

/// Whether a directive forbids keeping the answer.
pub open spec fn forbids(command: Seq<char>) -> bool {
    command == "private"@ || command == "no-store"@ || command == "no-cache"@
}

/// The age that a directive sets, where it sets one.
pub open spec fn age_of(command: Seq<char>) -> Option<u32> {
    if crate::text::begins_with(command, "max-age="@) {
        crate::text::unsigned_value(command.skip(8))
    } else {
        None
    }
}

/// The age that the last directive which sets one sets.
pub open spec fn last_age(commands: Seq<Seq<char>>) -> u32
    decreases commands.len(),
{
    if commands.len() == 0 {
        DEFAULT_MAX_AGE
    } else {
        match age_of(commands.last()) {
            Some(age) => age,
            None => last_age(commands.drop_last()),
        }
    }
}

/// Whether some directive forbids keeping the answer.
pub open spec fn some_forbids(commands: Seq<Seq<char>>) -> bool {
    exists|i: int| 0 <= i < commands.len() && forbids(#[trigger] commands[i])
}

/// What directives, separated by commas, say.
pub open spec fn cache_control_of(src: Seq<char>) -> CacheControl {
    let commands = crate::text::segments(src, ',');
    CacheControl { need_cache: !some_forbids(commands), max_age: last_age(commands) }
}

/// No directive that forbids keeping an answer also sets an age.
proof fn lemma_forbids_sets_no_age(command: Seq<char>)
    requires
        forbids(command),
    ensures
        age_of(command) is None,
{
    reveal_strlit("private");
    reveal_strlit("no-store");
    reveal_strlit("no-cache");
    reveal_strlit("max-age=");
    if crate::text::begins_with(command, "max-age="@) {
        assert(command.take(8)[0] == command[0]);
        assert("max-age="@[0] == 'm');
    }
}

/// Whether a directive forbids keeping the answer.
fn forbidding(command: &Vec<char>) -> (yes: bool)
    ensures
        yes == forbids(command@),
{
    same_chars(command, &chars_of("private")) || same_chars(command, &chars_of("no-store"))
        || same_chars(command, &chars_of("no-cache"))
}

/// The age that a directive sets.
fn age(command: &Vec<char>) -> (age: Option<u32>)
    ensures
        age == age_of(command@),
{
    proof {
        reveal_strlit("max-age=");
    }
    if has_prefix(command, &chars_of("max-age=")) {
        let number: Vec<char> = slice_of(command, 8, command.len());
        assert(number@ =~= command@.skip(8));
        parse_unsigned(&number)
    } else {
        None
    }
}

/// Reads the directives of a `Cache-Control` header.
pub fn parse_cache_control(src: &str) -> (cc: CacheControl)
    ensures
        cc == cache_control_of(src@),
{
    let commands: Vec<Vec<char>> = split(&chars_of(src), ',');
    let ghost all = crate::text::char_lists(commands@);
    let mut cc: CacheControl = CacheControl::default();
    let mut i: usize = 0;
    proof {
        assert(all.take(0) =~= Seq::<Seq<char>>::empty());
    }
    while i < commands.len()
        invariant
            i <= commands.len(),
            all == crate::text::char_lists(commands@),
            cc.need_cache == !some_forbids(all.take(i as int)),
            cc.max_age == last_age(all.take(i as int)),
        decreases commands.len() - i,
    {
        let ghost seen = all.take(i as int);
        let ghost next = all.take(i + 1);
        proof {
            assert(all[i as int] == commands@[i as int]@);
            assert(next.drop_last() =~= seen);
            assert(next.last() == commands@[i as int]@);
            if some_forbids(seen) {
                let k = choose|k: int| 0 <= k < seen.len() && forbids(#[trigger] seen[k]);
                assert(forbids(next[k]));
            }
            if some_forbids(next) && !forbids(next.last()) {
                let k = choose|k: int| 0 <= k < next.len() && forbids(#[trigger] next[k]);
                assert(forbids(seen[k]));
            }
        }
        if forbidding(&commands[i]) {
            proof {
                lemma_forbids_sets_no_age(commands@[i as int]@);
                assert(forbids(next[i as int]));
            }
            cc.need_cache = false;
        } else {
            match age(&commands[i]) {
                Some(ma) => {
                    cc.max_age = ma;
                },
                None => {},
            }
        }
        i += 1;
    }
    assert(all.take(all.len() as int) =~= all);
    cc
}

/// One forbidding directive is enough, whatever the others say.
pub proof fn law_forbidding_wins(src: Seq<char>, i: int)
    requires
        0 <= i < crate::text::segments(src, ',').len(),
        forbids(crate::text::segments(src, ',')[i]),
    ensures
        !cache_control_of(src).need_cache,
{
}

proof fn lemma_last_age_joined(front: Seq<Seq<char>>, command: Seq<char>)
    ensures
        last_age(front + seq![command]) == (match age_of(command) {
            Some(age) => age,
            None => last_age(front),
        }),
{
    let all = front + seq![command];
    assert(all.drop_last() =~= front);
    assert(all.last() == command);
}

/// A header of one directive: keeping is forbidden exactly by `private`, `no-store` and `no-cache`, the
/// fresh time is that of `max-age=`, and a day where there is none.
pub proof fn law_one_directive(command: Seq<char>, age: nat)
    requires
        !command.contains(','),
    ensures
        cache_control_of(command).need_cache <==> command != "private"@ && command != "no-store"@
            && command != "no-cache"@,
        command == "max-age="@ + crate::text::decimal(age) && age <= u32::MAX ==> cache_control_of(
            command,
        ).max_age == age,
        crate::text::begins_with(command, "max-age="@) && crate::text::unsigned_value(
            command.skip(8),
        ) == Some(age as u32) ==> cache_control_of(command).max_age == age as u32,
        !crate::text::begins_with(command, "max-age="@) || crate::text::unsigned_value(
            command.skip(8),
        ) is None ==> cache_control_of(command).max_age == 86400,
{
    crate::text::law_uncut_without_separator(command, ',');
    let commands = crate::text::segments(command, ',');
    assert(commands =~= seq![command]);
    assert(commands[0] == command);
    lemma_last_age_joined(Seq::empty(), command);
    assert(Seq::<Seq<char>>::empty() + seq![command] =~= commands);
    if command == "max-age="@ + crate::text::decimal(age) && age <= u32::MAX {
        reveal_strlit("max-age=");
        crate::text::law_begins_with_its_front("max-age="@, crate::text::decimal(age), command);
        assert(command.skip(8) =~= crate::text::decimal(age));
        crate::text::lemma_decimal(age);
        crate::text::law_unsigned_numbers_are_read(crate::text::decimal(age), command);
    }
}

/// One more directive behind others: it forbids keeping, or sets the fresh time in place of what was set
/// before, or changes nothing. None of them takes back that keeping is forbidden.
pub proof fn law_one_more_directive(before: Seq<char>, command: Seq<char>, age: nat)
    requires
        !command.contains(','),
    ensures
        ({
            let cc = cache_control_of(before + ","@ + command);
            &&& cc.need_cache <==> cache_control_of(before).need_cache && command != "private"@
                && command != "no-store"@ && command != "no-cache"@
            &&& command == "max-age="@ + crate::text::decimal(age) && age <= u32::MAX
                ==> cc.max_age == age
            &&& crate::text::begins_with(command, "max-age="@) && crate::text::unsigned_value(
                command.skip(8),
            ) == Some(age as u32) ==> cc.max_age == age as u32
            &&& !crate::text::begins_with(command, "max-age="@) || crate::text::unsigned_value(
                command.skip(8),
            ) is None ==> cc.max_age == cache_control_of(before).max_age
        }),
{
    reveal_strlit(",");
    assert(","@ =~= seq![',']);
    crate::text::law_cut_at_a_separator(before, command, ',');
    crate::text::law_uncut_without_separator(command, ',');
    let front = crate::text::segments(before, ',');
    let all = crate::text::segments(before + ","@ + command, ',');
    assert(all =~= front + seq![command]);
    lemma_last_age_joined(front, command);
    assert(all[front.len() as int] == command);
    if some_forbids(front) {
        let k = choose|k: int| 0 <= k < front.len() && forbids(#[trigger] front[k]);
        assert(forbids(all[k]));
    }
    if some_forbids(all) && !forbids(command) {
        let k = choose|k: int| 0 <= k < all.len() && forbids(#[trigger] all[k]);
        assert(forbids(front[k]));
    }
    if command == "max-age="@ + crate::text::decimal(age) && age <= u32::MAX {
        reveal_strlit("max-age=");
        crate::text::law_begins_with_its_front("max-age="@, crate::text::decimal(age), command);
        assert(command.skip(8) =~= crate::text::decimal(age));
        crate::text::lemma_decimal(age);
        crate::text::law_unsigned_numbers_are_read(crate::text::decimal(age), command);
    }
}

} // verus!
