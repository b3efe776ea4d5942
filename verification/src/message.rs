//! Messages as the mail service describes them, and the statistics of their
//! senders: how many messages each sender address accounts for.

use vstd::prelude::*;
use vstd::string::StringExecFns;
use crate::decimal::{decimal, decimal_string};
use crate::error::TriageError;
use crate::request::client::{Call, GClient, Method, MESSAGES_URL};
use crate::request::message_list::{unread_list_call, unread_query};

verus! {

/// A message of the mail service. After the list call only `id` and
/// `thread_id` are known; the metadata call adds the payload.
#[derive(Clone, Debug, PartialEq, Eq)]
pub struct Message {
    pub id: Option<String>,
    pub thread_id: Option<String>,
    pub payload: Option<Payload>,
}

/// The part of a message's metadata that was asked for.
#[derive(Clone, Debug, PartialEq, Eq)]
pub struct Payload {
    pub headers: Option<Vec<Header>>,
}

/// One header of a message.
#[derive(Clone, Debug, PartialEq, Eq)]
pub struct Header {
    pub name: Option<String>,
    pub value: Option<String>,
}

/// The part of the client that deals with messages: it describes the calls
/// that list the unread messages and fetch their senders.
#[derive(Debug)]
pub struct MessageClient<'a> {
    pub client: &'a GClient,
    pub message: Option<Message>,
}

/// The parameters that restrict a message's metadata to its sender header.
pub open spec fn sender_only_query() -> Seq<(Seq<char>, Seq<char>)> {
    seq![("format"@, "metadata"@), ("metadataHeaders"@, "From"@)]
}

/// The address of the message with the given id.
pub open spec fn message_url(id: Seq<char>) -> Seq<char> {
    MESSAGES_URL@ + "/"@ + id
}

/// `call` asks for the sender header, and nothing else, of the message `id`.
pub open spec fn is_sender_call(call: Call, id: Seq<char>) -> bool {
    &&& call.method == Method::GET
    &&& call.url@ == message_url(id)
    &&& call.query.deep_view() == sender_only_query()
    &&& call.body@.len() == 0
}

impl<'a> MessageClient<'a> {
    /// The message part of `client`.
    pub fn new(client: &'a GClient) -> (c: Self)
        ensures
            c.client == client,
            c.message is None,
    {
        Self { client, message: None }
    }

    /// The call that lists the unread messages.
    pub fn get_unread_list(&self) -> (call: Call)
        ensures
            call.method == Method::GET,
            call.url@ == MESSAGES_URL@,
            call.query.deep_view() == unread_query(),
            call.body@.len() == 0,
    {
        unread_list_call(self.client)
    }

    /// The calls that fetch the senders of the listed messages: one call for
    /// each message, in the order of the list. They are independent of each
    /// other and may be sent all at once.
    pub fn fill_messages_metadata(&self, message_list: &Vec<Message>) -> (calls: Vec<Call>)
        requires
            forall|i: int| 0 <= i < message_list@.len() ==> (#[trigger] message_list@[i]).id is Some,
        ensures
            calls@.len() == message_list@.len(),
            forall|i: int|
                0 <= i < message_list@.len() ==> is_sender_call(
                    #[trigger] calls@[i],
                    message_list@[i].id->0@,
                ),
    {
        let mut calls: Vec<Call> = Vec::new();
        let mut i: usize = 0;
        while i < message_list.len()
            invariant
                i <= message_list@.len(),
                calls@.len() == i,
                forall|j: int| 0 <= j < message_list@.len() ==> (#[trigger] message_list@[j]).id is Some,
                forall|j: int|
                    0 <= j < i ==> is_sender_call(#[trigger] calls@[j], message_list@[j].id->0@),
            decreases message_list@.len() - i,
        {
            calls.push(self.get_metadata_from_only(&message_list[i]));
            i = i + 1;
        }
        calls
    }

    /// The call that fetches the metadata of one message, restricted to its
    /// sender header.
    pub fn get_metadata_from_only(&self, message: &Message) -> (call: Call)
        requires
            message.id is Some,
        ensures
            is_sender_call(call, message.id->0@),
    {
        let id = message.id.as_ref().unwrap();
        let url = MESSAGES_URL.to_owned().concat("/").concat(id.as_str());
        let mut query: Vec<(&str, &str)> = Vec::new();
        query.push(("format", "metadata"));
        query.push(("metadataHeaders", "From"));
        proof {
            assert(query.deep_view() =~= sender_only_query());
        }
        self.client.call_api(url.as_str(), &query, &Vec::new(), Method::GET)
    }
}

/// `at` is the place of the first failure among the outcomes: every call
/// before it succeeded.
pub open spec fn first_failure<T, E>(results: Seq<Result<T, E>>, at: int) -> bool {
    &&& 0 <= at < results.len()
    &&& results[at] is Err
    &&& forall|j: int| 0 <= j < at ==> (#[trigger] results[j]) is Ok
}

/// The first failure has one place.
pub proof fn lemma_first_failure_unique<T, E>(results: Seq<Result<T, E>>, a: int, b: int)
    requires
        first_failure(results, a),
        first_failure(results, b),
    ensures
        a == b,
{
    if a < b {
        assert(results[a] is Ok);
    } else if b < a {
        assert(results[b] is Ok);
    }
}

/// Joins the outcomes of the calls that were sent together: all the answers
/// in the order of the calls where every call succeeded, and otherwise the
/// failure of the first call that failed, the other answers being dropped.
pub fn all_or_first_error<T, E>(results: Vec<Result<T, E>>) -> (r: Result<Vec<T>, E>)
    ensures
        match r {
            Ok(answers) => {
                &&& answers@.len() == results@.len()
                &&& forall|i: int|
                    0 <= i < results@.len() ==> #[trigger] results@[i] == Ok::<T, E>(answers@[i])
            },
            Err(e) => exists|at: int|
                #[trigger] first_failure(results@, at) && results@[at] == Err::<T, E>(e),
        },
{
    let ghost given = results@;
    let mut results = results;
    let mut failure: Option<E> = None;
    let ghost mut at: int = 0;
    let mut backwards: Vec<T> = Vec::new();
    while results.len() > 0
        invariant
            results@.len() <= given.len(),
            results@ == given.take(results@.len() as int),
            failure is None ==> {
                &&& backwards@.len() == given.len() - results@.len()
                &&& forall|j: int|
                    results@.len() <= j < given.len() ==> #[trigger] given[j] == Ok::<T, E>(
                        backwards@[given.len() - 1 - j],
                    )
            },
            failure is Some ==> {
                &&& results@.len() <= at < given.len()
                &&& given[at] == Err::<T, E>(failure->0)
                &&& forall|j: int| results@.len() <= j < at ==> (#[trigger] given[j]) is Ok
            },
        decreases results@.len(),
    {
        let ghost n = results@.len();
        let outcome = results.pop().unwrap();
        match outcome {
            Ok(answer) => {
                if failure.is_none() {
                    backwards.push(answer);
                }
            },
            Err(e) => {
                failure = Some(e);
                proof {
                    at = n - 1;
                }
            },
        }
    }
    match failure {
        Some(e) => {
            proof {
                assert(first_failure(given, at));
            }
            Err(e)
        },
        None => {
            let mut answers: Vec<T> = Vec::new();
            let ghost turned = backwards@;
            while backwards.len() > 0
                invariant
                    turned.len() == given.len(),
                    backwards@.len() <= turned.len(),
                    backwards@ == turned.take(backwards@.len() as int),
                    answers@.len() == turned.len() - backwards@.len(),
                    forall|j: int|
                        0 <= j < answers@.len() ==> #[trigger] answers@[j] == turned[turned.len() - 1
                            - j],
                decreases backwards@.len(),
            {
                let answer = backwards.pop().unwrap();
                answers.push(answer);
            }
            Ok(answers)
        },
    }
}

impl Default for Message {
    fn default() -> (m: Self)
        ensures
            m.id is None,
            m.thread_id is None,
            m.payload is None,
    {
        Self { id: None, thread_id: None, payload: None }
    }
}

impl Message {
    /// A message of which nothing is known yet.
    pub fn new() -> (m: Self)
        ensures
            m.id is None,
            m.thread_id is None,
            m.payload is None,
    {
        Self { id: None, thread_id: None, payload: None }
    }

    /// The message carries a list of headers.
    pub open spec fn has_headers(&self) -> bool {
        self.payload is Some && self.payload->0.headers is Some
    }

    /// The headers of a message that carries some.
    pub open spec fn headers(&self) -> Seq<Header> {
        self.payload->0.headers->0@
    }

    /// The message carries exactly one header, and that header has a value.
    pub open spec fn has_one_sender(&self) -> bool {
        self.has_headers() && self.headers().len() == 1 && self.headers()[0].value is Some
    }

    /// The message carries more than one header.
    pub open spec fn has_many_headers(&self) -> bool {
        self.has_headers() && self.headers().len() > 1
    }

    /// The sender of a message with one sender: the value of its header,
    /// taken as it stands.
    pub open spec fn sender(&self) -> Seq<char> {
        self.headers()[0].value->0@
    }
}

/// The senders of a list of messages, one for each message and in its order.
pub open spec fn senders_of(list: Seq<Message>) -> Seq<Seq<char>> {
    Seq::new(list.len(), |i: int| list[i].sender())
}

/// No message before the `i`-th carries more than one header.
pub open spec fn none_rejected_before(list: Seq<Message>, i: int) -> bool {
    forall|j: int| 0 <= j < i ==> !(#[trigger] list[j]).has_many_headers()
}

/// Some message carries more than one header.
pub open spec fn some_rejected(list: Seq<Message>) -> bool {
    exists|j: int| 0 <= j < list.len() && (#[trigger] list[j]).has_many_headers()
}

/// The senders of the list can be counted, or the list is rejected before
/// anything is missing: each message up to the first one with more than one
/// header carries its headers, and each one before it exactly one sender.
pub open spec fn aggregable(list: Seq<Message>) -> bool {
    forall|i: int|
        0 <= i < list.len() && #[trigger] none_rejected_before(list, i) ==> list[i].has_one_sender()
            || list[i].has_many_headers()
}

/// How often `address` occurs among `senders`.
pub open spec fn times(senders: Seq<Seq<char>>, address: Seq<char>) -> nat
    decreases senders.len(),
{
    if senders.len() == 0 {
        0
    } else {
        times(senders.drop_last(), address) + if senders.last() == address {
            1nat
        } else {
            0nat
        }
    }
}

/// The distinct addresses among `senders`, in the order in which each is
/// first met.
pub open spec fn first_seen(senders: Seq<Seq<char>>) -> Seq<Seq<char>>
    decreases senders.len(),
{
    if senders.len() == 0 {
        Seq::empty()
    } else {
        let before = first_seen(senders.drop_last());
        if before.contains(senders.last()) {
            before
        } else {
            before.push(senders.last())
        }
    }
}

/// The statistics of a list of senders: each distinct address once, in the
/// order of first occurrence, with the number of its occurrences.
pub open spec fn tally(senders: Seq<Seq<char>>) -> Seq<(Seq<char>, nat)> {
    Seq::new(first_seen(senders).len(), |i: int| (first_seen(senders)[i], times(senders, first_seen(senders)[i])))
}

/// The sum of the counts of a statistics.
pub open spec fn total(counts: Seq<(Seq<char>, nat)>) -> nat
    decreases counts.len(),
{
    if counts.len() == 0 {
        0
    } else {
        total(counts.drop_last()) + counts.last().1
    }
}

/// An address occurs at most as often as there are senders, and at least
/// once exactly where it is among them.
pub proof fn lemma_times_bounds(senders: Seq<Seq<char>>, address: Seq<char>)
    ensures
        times(senders, address) <= senders.len(),
        times(senders, address) >= 1 <==> senders.contains(address),
    decreases senders.len(),
{
    if senders.len() > 0 {
        let front = senders.drop_last();
        lemma_times_bounds(front, address);
        if senders.contains(address) {
            let i = choose|i: int| 0 <= i < senders.len() && senders[i] == address;
            if i < front.len() {
                assert(front[i] == address);
            }
        }
    }
}

/// The addresses first seen are the addresses among the senders, each once.
pub proof fn lemma_first_seen(senders: Seq<Seq<char>>)
    ensures
        first_seen(senders).no_duplicates(),
        forall|a: Seq<char>| #[trigger] first_seen(senders).contains(a) <==> senders.contains(a),
    decreases senders.len(),
{
    let out = first_seen(senders);
    if senders.len() > 0 {
        let front = senders.drop_last();
        let before = first_seen(front);
        let s = senders.last();
        lemma_first_seen(front);
        assert forall|a: Seq<char>| #[trigger] out.contains(a) <==> senders.contains(a) by {
            assert(before.contains(a) <==> front.contains(a));
            if front.contains(a) {
                let k = choose|k: int| 0 <= k < before.len() && before[k] == a;
                assert(out[k] == a);
            }
            if senders.contains(a) {
                let i = choose|i: int| 0 <= i < senders.len() && senders[i] == a;
                if i < front.len() {
                    assert(front[i] == a);
                } else if !before.contains(s) {
                    assert(out[before.len() as int] == a);
                }
            }
        }
    }
}

/// Raising one count by one raises the sum by one.
proof fn lemma_total_update(counts: Seq<(Seq<char>, nat)>, k: int, entry: (Seq<char>, nat))
    requires
        0 <= k < counts.len(),
        entry.1 == counts[k].1 + 1,
    ensures
        total(counts.update(k, entry)) == total(counts) + 1,
    decreases counts.len(),
{
    let next = counts.update(k, entry);
    if k == counts.len() - 1 {
        assert(next.drop_last() =~= counts.drop_last());
    } else {
        lemma_total_update(counts.drop_last(), k, entry);
        assert(next.drop_last() =~= counts.drop_last().update(k, entry));
    }
}

/// What one more sender does to the statistics: it raises the count of its
/// address by one, or enters the address at the end with the count one.
pub proof fn lemma_tally_push(senders: Seq<Seq<char>>, s: Seq<char>)
    ensures
        first_seen(senders).contains(s) ==> exists|k: int|
            0 <= k < tally(senders).len() && (#[trigger] tally(senders)[k]).0 == s && tally(
                senders.push(s),
            ) == tally(senders).update(k, (s, tally(senders)[k].1 + 1)),
        !first_seen(senders).contains(s) ==> tally(senders.push(s)) == tally(senders).push((s, 1nat)),
{
    let more = senders.push(s);
    let seen = first_seen(senders);
    assert(more.drop_last() =~= senders);
    lemma_first_seen(senders);
    lemma_times_bounds(senders, s);
    if seen.contains(s) {
        let k = choose|k: int| 0 <= k < seen.len() && seen[k] == s;
        assert(tally(senders)[k].0 == s);
    }
}

/// The counts of a statistics add up to the number of senders counted.
pub proof fn lemma_tally_total(senders: Seq<Seq<char>>)
    ensures
        total(tally(senders)) == senders.len(),
    decreases senders.len(),
{
    if senders.len() > 0 {
        let front = senders.drop_last();
        let s = senders.last();
        lemma_tally_total(front);
        lemma_tally_push(front, s);
        assert(front.push(s) =~= senders);
        if first_seen(front).contains(s) {
            let k = choose|k: int|
                0 <= k < tally(front).len() && (#[trigger] tally(front)[k]).0 == s && tally(
                    front.push(s),
                ) == tally(front).update(k, (s, tally(front)[k].1 + 1));
            lemma_total_update(tally(front), k, (s, tally(front)[k].1 + 1));
        } else {
            assert(tally(front).push((s, 1nat)).drop_last() =~= tally(front));
        }
    }
}

/// What a map from addresses to counts holds: no address occurs twice, and
/// every count is at least one.
pub open spec fn is_statistics(rows: Seq<(Seq<char>, nat)>) -> bool {
    &&& forall|i: int, j: int|
        0 <= i < j < rows.len() ==> (#[trigger] rows[i]).0 != (#[trigger] rows[j]).0
    &&& forall|i: int| 0 <= i < rows.len() ==> (#[trigger] rows[i]).1 >= 1
}

/// Every address of a statistics is one of the senders, none occurs twice,
/// and every count is at least one; and every sender has its row.
pub proof fn lemma_tally_entries(senders: Seq<Seq<char>>)
    ensures
        is_statistics(tally(senders)),
        forall|i: int|
            0 <= i < tally(senders).len() ==> senders.contains((#[trigger] tally(senders)[i]).0),
        forall|a: Seq<char>|
            senders.contains(a) ==> exists|i: int|
                0 <= i < tally(senders).len() && (#[trigger] tally(senders)[i]).0 == a,
{
    let seen = first_seen(senders);
    lemma_first_seen(senders);
    assert forall|i: int| 0 <= i < tally(senders).len() implies senders.contains(
        (#[trigger] tally(senders)[i]).0,
    ) && (#[trigger] tally(senders)[i]).1 >= 1 by {
        assert(seen.contains(seen[i]));
        lemma_times_bounds(senders, seen[i]);
    }
    assert forall|a: Seq<char>| senders.contains(a) implies exists|i: int|
        0 <= i < tally(senders).len() && (#[trigger] tally(senders)[i]).0 == a by {
        assert(seen.contains(a));
        let i = choose|i: int| 0 <= i < seen.len() && seen[i] == a;
        assert(tally(senders)[i].0 == a);
    }
}

/// The statistics of the senders of a list of messages: two index-aligned
/// columns, the addresses and, as text, their counts. The rows stand in the
/// order in which the addresses were first met; no address has two rows.
#[derive(Debug, PartialEq, Eq)]
pub struct AddressCounts {
    addresses: Vec<String>,
    counts: Vec<usize>,
    labels: Vec<String>,
}

impl View for AddressCounts {
    type V = Seq<(Seq<char>, nat)>;

    /// The rows: each address with its count.
    closed spec fn view(&self) -> Seq<(Seq<char>, nat)> {
        Seq::new(self.addresses@.len(), |i: int| (self.addresses@[i]@, self.counts@[i] as nat))
    }
}

impl AddressCounts {
    #[verifier::type_invariant]
    spec fn aligned(&self) -> bool {
        &&& self.addresses@.len() == self.counts@.len()
        &&& self.addresses@.len() == self.labels@.len()
        &&& forall|i: int|
            0 <= i < self.labels@.len() ==> (#[trigger] self.labels@[i])@ == decimal(
                self.counts@[i] as nat,
            )
        &&& is_statistics(self@)
    }

    /// The number of distinct addresses.
    pub fn len(&self) -> (n: usize)
        ensures
            n == self@.len(),
            is_statistics(self@),
    {
        proof {
            use_type_invariant(self);
        }
        self.addresses.len()
    }

    /// The address of row `i`.
    pub fn address(&self, i: usize) -> (a: &str)
        requires
            i < self@.len(),
        ensures
            a@ == self@[i as int].0,
    {
        proof {
            use_type_invariant(self);
        }
        self.addresses[i].as_str()
    }

    /// The count of row `i`.
    pub fn count(&self, i: usize) -> (c: usize)
        requires
            i < self@.len(),
        ensures
            c == self@[i as int].1,
    {
        proof {
            use_type_invariant(self);
        }
        self.counts[i]
    }

    /// The count of row `i` as it is shown.
    pub fn label(&self, i: usize) -> (t: &str)
        requires
            i < self@.len(),
        ensures
            t@ == decimal(self@[i as int].1),
    {
        proof {
            use_type_invariant(self);
        }
        self.labels[i].as_str()
    }
}

/// Tells whether `get_address_count_list` can work on a list: see
/// `aggregable`.
pub fn is_aggregable(list: &Vec<Message>) -> (b: bool)
    ensures
        b == aggregable(list@),
{
    let mut i: usize = 0;
    while i < list.len()
        invariant
            i <= list.len(),
            forall|j: int| 0 <= j < i ==> (#[trigger] list@[j]).has_one_sender(),
        decreases list.len() - i,
    {
        proof {
            assert(none_rejected_before(list@, i as int));
        }
        match &list[i].payload {
            None => {
                return false;
            },
            Some(payload) => match &payload.headers {
                None => {
                    return false;
                },
                Some(headers) => {
                    if headers.len() > 1 {
                        return true;
                    }
                    if headers.len() == 0 {
                        return false;
                    }
                    if headers[0].value.is_none() {
                        return false;
                    }
                },
            },
        }
        i = i + 1;
    }
    true
}

/// Counts the messages of each sender.
///
/// The sender of a message is the value of its one header, compared exactly
/// as it stands. A message with more than one header is not counted under
/// any of them: the whole list is rejected with `MultipleHeaders`.
pub fn get_address_count_list(list: &Vec<Message>) -> (r: Result<AddressCounts, TriageError>)
    requires
        aggregable(list@),
    ensures
        match r {
            Ok(counts) => {
                &&& !some_rejected(list@)
                &&& forall|i: int| 0 <= i < list@.len() ==> (#[trigger] list@[i]).has_one_sender()
                &&& counts@ == tally(senders_of(list@))
                &&& is_statistics(counts@)
                &&& total(counts@) == list@.len()
            },
            Err(e) => some_rejected(list@) && e == TriageError::MultipleHeaders,
        },
{
    let ghost all = senders_of(list@);
    let mut addresses: Vec<String> = Vec::new();
    let mut counts: Vec<usize> = Vec::new();
    let mut i: usize = 0;
    while i < list.len()
        invariant
            i <= list.len(),
            aggregable(list@),
            all == senders_of(list@),
            forall|j: int| 0 <= j < i ==> (#[trigger] list@[j]).has_one_sender(),
            addresses.deep_view() == first_seen(all.take(i as int)),
            counts@.len() == addresses@.len(),
            forall|k: int|
                0 <= k < counts@.len() ==> #[trigger] counts@[k] == times(
                    all.take(i as int),
                    addresses@[k]@,
                ),
        decreases list.len() - i,
    {
        proof {
            assert(none_rejected_before(list@, i as int));
        }
        let headers = list[i].payload.as_ref().unwrap().headers.as_ref().unwrap();
        if headers.len() > 1 {
            return Err(TriageError::MultipleHeaders);
        }
        let address = headers[0].value.as_ref().unwrap();
        let ghost prefix = all.take(i as int);
        let ghost seen = first_seen(prefix);
        proof {
            assert(all.take(i + 1) =~= prefix.push(address@));
            assert(prefix.push(address@).drop_last() =~= prefix);
            lemma_first_seen(prefix);
        }
        let mut k: usize = 0;
        let mut found = false;
        while k < addresses.len() && !found
            invariant
                k <= addresses.len(),
                addresses.deep_view() == seen,
                found ==> k < addresses.len() && seen[k as int] == address@,
                forall|j: int| 0 <= j < k ==> #[trigger] seen[j] != address@,
            decreases addresses.len() - k + (if found { 0int } else { 1int }),
        {
            if addresses[k] == *address {
                found = true;
            } else {
                k = k + 1;
            }
        }
        if found {
            proof {
                lemma_times_bounds(prefix, address@);
            }
            let raised = counts[k] + 1;
            counts.set(k, raised);
            proof {
                assert forall|j: int| 0 <= j < counts@.len() implies #[trigger] counts@[j] == times(
                    all.take(i + 1),
                    addresses@[j]@,
                ) by {
                    assert(seen[j] == addresses@[j]@);
                }
            }
        } else {
            proof {
                lemma_times_bounds(prefix, address@);
                assert(!seen.contains(address@));
            }
            addresses.push(address.clone());
            counts.push(1);
            proof {
                assert forall|j: int| 0 <= j < counts@.len() implies #[trigger] counts@[j] == times(
                    all.take(i + 1),
                    addresses@[j]@,
                ) by {
                    if j < seen.len() {
                        assert(seen[j] == addresses@[j]@);
                    }
                }
            }
        }
        i = i + 1;
    }
    proof {
        assert(all.take(list@.len() as int) =~= all);
    }
    let mut labels: Vec<String> = Vec::new();
    let mut n: usize = 0;
    while n < counts.len()
        invariant
            n <= counts.len(),
            labels@.len() == n,
            forall|j: int| 0 <= j < n ==> (#[trigger] labels@[j])@ == decimal(counts@[j] as nat),
        decreases counts.len() - n,
    {
        labels.push(decimal_string(counts[n]));
        n = n + 1;
    }
    proof {
        let rows = Seq::new(addresses@.len(), |i: int| (addresses@[i]@, counts@[i] as nat));
        assert(rows =~= tally(all)) by {
            assert forall|j: int| 0 <= j < rows.len() implies rows[j] == tally(all)[j] by {
                assert(addresses.deep_view()[j] == addresses@[j]@);
            }
        }
        lemma_tally_entries(all);
        lemma_tally_total(all);
    }
    Ok(AddressCounts { addresses, counts, labels })
}

/// The two columns of the statistics as they are displayed: the addresses,
/// and beside each its count in decimal digits.
pub fn split_address_count<'a>(list: &'a AddressCounts) -> (columns: (Vec<&'a str>, Vec<&'a str>))
    ensures
        columns.0@.len() == list@.len(),
        columns.1@.len() == list@.len(),
        forall|i: int|
            0 <= i < list@.len() ==> (#[trigger] columns.0@[i])@ == list@[i].0,
        forall|i: int|
            0 <= i < list@.len() ==> (#[trigger] columns.1@[i])@ == decimal(list@[i].1),
{
    let mut address_list: Vec<&'a str> = Vec::new();
    let mut count_list: Vec<&'a str> = Vec::new();
    let mut i: usize = 0;
    while i < list.len()
        invariant
            i <= list@.len(),
            address_list@.len() == i,
            count_list@.len() == i,
            forall|j: int| 0 <= j < i ==> (#[trigger] address_list@[j])@ == list@[j].0,
            forall|j: int| 0 <= j < i ==> (#[trigger] count_list@[j])@ == decimal(list@[j].1),
        decreases list@.len() - i,
    {
        address_list.push(list.address(i));
        count_list.push(list.label(i));
        i = i + 1;
    }
    (address_list, count_list)
}

} // verus!
