//! The events that announce a distribution to be pushed, and the connection that carries them.
use crate::json;
use crate::push_consumer;
use crate::text;
use crate::text_laws;
use vstd::prelude::*;

verus! {

/// The topic exchange that the events land on.
pub const PYPI_PUBLISH_EXCHANGE: &'static str = "pypi.publish";

/// What the routing key of every event begins with.
pub const ROUTING_PREFIX: &'static str = "pypi.publish.";

/// What an event is called.
pub const EVENT_NAME: &'static str = "pypi_package_published";

/// An event: where it is sent, and what it says.
#[derive(Debug)]
pub struct ReadyEvent {
    pub routing_key: String,
    pub body: String,
}

/// The members of the event that announces a file of a project.
pub open spec fn event_members(project: Seq<char>, filename: Seq<char>) -> Map<
    Seq<char>,
    Seq<char>,
> {
    Map::empty().insert("event"@, EVENT_NAME@).insert("project"@, project).insert(
        "filename"@,
        filename,
    )
}

/// The routing key of a project's events. Slashes in the project's name become dots.
pub open spec fn routing_key_for(project: Seq<char>) -> Seq<char> {
    ROUTING_PREFIX@ + text::replaced(project, '/', "."@)
}

/// The names of the members differ.
proof fn lemma_member_names()
    ensures
        "event"@ != "project"@,
        "event"@ != "filename"@,
        "project"@ != "filename"@,
{
    reveal_strlit("event");
    reveal_strlit("project");
    reveal_strlit("filename");
    assert("event"@.len() == 5 && "project"@.len() == 7 && "filename"@.len() == 8);
}

/// The event that announces a file of a project. Its body reads back as the file's name.
pub fn ready_event(project: &str, filename: &str) -> (r: ReadyEvent)
    ensures
        r.routing_key@ == routing_key_for(project@),
        r.body@ == json::object_text(event_members(project@, filename@)),
        push_consumer::announced(vstd::utf8::encode_utf8(r.body@)) == Ok::<
            Seq<char>,
            push_consumer::EventErrorView,
        >(filename@),
        ({
            let said = json::parsed_texts(vstd::utf8::encode_utf8(r.body@));
            &&& said is Ok
            &&& said->Ok_0.dom() == set!["event"@, "project"@, "filename"@]
            &&& said->Ok_0["event"@] == "pypi_package_published"@
            &&& said->Ok_0["project"@] == project@
            &&& said->Ok_0["filename"@] == filename@
        }),
{
    proof {
        lemma_member_names();
        assert(event_members(project@, filename@).dom() =~= set![
            "event"@,
            "project"@,
            "filename"@,
        ]);
    }
    let mut object = json::object_new();
    json::object_insert(&mut object, "event", EVENT_NAME);
    json::object_insert(&mut object, "project", project);
    json::object_insert(&mut object, "filename", filename);
    assert(json::object_texts(object) == event_members(project@, filename@));
    ReadyEvent {
        routing_key: text::concat2(ROUTING_PREFIX, &text::replace_char(project, '/', ".")),
        body: json::object_write(object),
    }
}

/// How long to wait, in seconds, before the first new attempt to connect.
pub const FIRST_DELAY: u64 = 1;

/// How long to wait, in seconds, at most.
pub const LONGEST_DELAY: u64 = 30;

/// The wait after the one given: twice as long, up to the longest.
pub open spec fn delay_after(delay: u64) -> u64 {
    if 2 * delay <= LONGEST_DELAY {
        (2 * delay) as u64
    } else {
        LONGEST_DELAY
    }
}

/// The wait after the one given.
pub fn next_delay(delay: u64) -> (r: u64)
    ensures
        r == delay_after(delay),
        r == (if delay <= 15 {
            2 * delay
        } else {
            30
        }),
{
    if delay <= LONGEST_DELAY / 2 {
        2 * delay
    } else {
        LONGEST_DELAY
    }
}

/// The wait before the new attempt with the given number, counted from zero.
pub open spec fn nth_delay(n: nat) -> u64
    decreases n,
{
    if n == 0 {
        FIRST_DELAY
    } else {
        delay_after(nth_delay((n - 1) as nat))
    }
}

/// The waits never get shorter, and stay between the first and the longest.
pub proof fn law_delays_grow_to_a_limit(n: nat)
    ensures
        FIRST_DELAY <= nth_delay(n) <= LONGEST_DELAY,
        nth_delay(n) <= nth_delay(n + 1),
    decreases n,
{
    if n > 0 {
        law_delays_grow_to_a_limit((n - 1) as nat);
    }
}

/// The waits are one, two, four, eight and sixteen seconds.
pub proof fn law_delays_double()
    ensures
        nth_delay(0) == 1,
        nth_delay(1) == 2,
        nth_delay(2) == 4,
        nth_delay(3) == 8,
        nth_delay(4) == 16,
{
    reveal_with_fuel(nth_delay, 6);
}

/// From the sixth wait on, the wait is the longest, of thirty seconds.
pub proof fn law_delays_reach_the_limit(n: nat)
    requires
        n >= 5,
    ensures
        nth_delay(n) == LONGEST_DELAY,
        nth_delay(n) == 30,
    decreases n,
{
    reveal_with_fuel(nth_delay, 7);
    if n > 5 {
        law_delays_reach_the_limit((n - 1) as nat);
    }
}

/// The characters of a text after a replacement come from the text or from what was put in.
proof fn lemma_replaced_without(s: Seq<char>, c: char, r: Seq<char>)
    requires
        !r.contains(c),
    ensures
        !text::replaced(s, c, r).contains(c),
    decreases s.len(),
{
    if s.len() > 0 {
        lemma_replaced_without(s.drop_last(), c, r);
        let front = text::replaced(s.drop_last(), c, r);
        let all = text::replaced(s, c, r);
        if all.contains(c) {
            let i = choose|i: int| 0 <= i < all.len() && all[i] == c;
            if i < front.len() {
                assert(front[i] == c);
            } else if s.last() == c {
                assert(r[i - front.len()] == c);
            }
        }
    }
}

/// The routing key of a project whose name is made of words with slashes between them has the words
/// with dots between them, behind what every key begins with.
pub proof fn law_routing_key(words: Seq<Seq<char>>)
    requires
        words.len() > 0,
        forall|i: int| 0 <= i < words.len() ==> !(#[trigger] words[i]).contains('/'),
    ensures
        routing_key_for(text::joined(words, seq!['/'])) == "pypi.publish."@ + text::joined(
            words,
            seq!['.'],
        ),
{
    reveal_strlit(".");
    assert("."@ =~= seq!['.']);
    lemma_replaced_words(words);
}

/// Replacing the separator of joined words joins them by the replacement.
proof fn lemma_replaced_words(words: Seq<Seq<char>>)
    requires
        words.len() > 0,
        forall|i: int| 0 <= i < words.len() ==> !(#[trigger] words[i]).contains('/'),
    ensures
        text::replaced(text::joined(words, seq!['/']), '/', seq!['.']) == text::joined(
            words,
            seq!['.'],
        ),
    decreases words.len(),
{
    let n = words.len() - 1;
    assert(!words[n].contains('/'));
    lemma_replaced_word(words[n]);
    if words.len() > 1 {
        let front = words.drop_last();
        assert forall|i: int| 0 <= i < front.len() implies !(#[trigger] front[i]).contains('/') by {
            assert(front[i] == words[i]);
        }
        lemma_replaced_words(front);
        let a = text::joined(front, seq!['/']);
        text_laws::law_replaced(a, seq!['/'], '/', seq!['.']);
        text_laws::law_replaced(a + seq!['/'], words[n], '/', seq!['.']);
        assert(text::replaced(seq!['/'], '/', seq!['.']) =~= seq!['.']) by {
            reveal_with_fuel(text::replaced, 3);
        }
    }
}

/// A word without slashes stays as it is.
proof fn lemma_replaced_word(word: Seq<char>)
    requires
        !word.contains('/'),
    ensures
        text::replaced(word, '/', seq!['.']) == word,
    decreases word.len(),
{
    if word.len() > 0 {
        assert(word.contains(word.last()));
        assert forall|i: int| 0 <= i < word.drop_last().len() implies word.drop_last()[i] != '/' by {
            assert(word.contains(word[i]));
        }
        lemma_replaced_word(word.drop_last());
        assert(word.drop_last() + seq![word.last()] =~= word);
    }
}

/// Every routing key begins like the keys that the consumer's queue is bound to, and holds no slash.
pub proof fn law_routing_keys_reach_the_queue(project: Seq<char>)
    ensures
        text::begins_with(routing_key_for(project), "pypi.publish."@),
        push_consumer::BINDING_KEY@ == "pypi.publish.#"@,
        push_consumer::BINDING_KEY@ == ROUTING_PREFIX@ + "#"@,
        !routing_key_for(project).contains('/'),
{
    reveal_strlit("pypi.publish.");
    reveal_strlit("pypi.publish.#");
    reveal_strlit("#");
    reveal_strlit(".");
    let key = routing_key_for(project);
    let rest = text::replaced(project, '/', "."@);
    assert(key.take(ROUTING_PREFIX@.len() as int) =~= ROUTING_PREFIX@);
    assert(push_consumer::BINDING_KEY@ =~= ROUTING_PREFIX@ + "#"@);
    lemma_replaced_without(project, '/', "."@);
    if key.contains('/') {
        let i = choose|i: int| 0 <= i < key.len() && key[i] == '/';
        if i >= ROUTING_PREFIX@.len() {
            assert(rest[i - ROUTING_PREFIX@.len()] == '/');
        }
    }
}

} // verus!
