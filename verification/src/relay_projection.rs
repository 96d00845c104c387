//! When projecting a relayed frame for its recipients repeats work that is
//! worth sharing, and what each recipient of a room frame is sent.

use std::sync::Arc;

use vstd::prelude::*;

use crate::protocol::{GameDataEncoding, PlayerId, ServerMessage};

verus! {

/// What `player` is sent of a room frame: an authority change tells every
/// recipient whether it is the authority; all else goes out as it is.
pub open spec fn message_for_recipient(message: ServerMessage, player: PlayerId) -> ServerMessage {
    match message {
        ServerMessage::AuthorityChanged { authority_player, you_are_authority } =>
            ServerMessage::AuthorityChanged {
                authority_player,
                you_are_authority: authority_player == Some(player),
            },
        other => other,
    }
}

/// What `player_id` is sent of `message`.
pub fn room_message_for_recipient(message: &Arc<ServerMessage>, player_id: &PlayerId) -> (projected:
    Arc<ServerMessage>)
    ensures
        *projected == message_for_recipient(**message, *player_id),
{
    match &**message {
        ServerMessage::AuthorityChanged { authority_player, you_are_authority: _ } => {
            let addressed = match authority_player {
                Some(authority) => *authority == *player_id,
                None => false,
            };
            Arc::new(
                ServerMessage::AuthorityChanged {
                    authority_player: *authority_player,
                    you_are_authority: addressed,
                },
            )
        },
        _ => Arc::clone(message),
    }
}

/// Recipients of one relayed frame that share the projection of it.
#[derive(Clone, Copy, Debug, PartialEq, Eq, Structural)]
pub enum RelayProjectionCohort {
    TextV2,
    TextV3,
    BinaryDirectV2,
    BinaryDirectV3,
    BinaryFallbackV2,
    BinaryFallbackV3,
}

impl RelayProjectionCohort {
    /// The position of the cohort in the seen set.
    pub open spec fn index(self) -> u8 {
        match self {
            RelayProjectionCohort::TextV2 => 0,
            RelayProjectionCohort::TextV3 => 1,
            RelayProjectionCohort::BinaryDirectV2 => 2,
            RelayProjectionCohort::BinaryDirectV3 => 3,
            RelayProjectionCohort::BinaryFallbackV2 => 4,
            RelayProjectionCohort::BinaryFallbackV3 => 5,
        }
    }

    pub open spec fn spec_is_binary_fallback(self) -> bool {
        self is BinaryFallbackV2 || self is BinaryFallbackV3
    }

    /// The bit that stands for the cohort in a set of cohorts.
    pub fn cache_bit(self) -> (bit: u8)
        ensures
            bit == 1u8 << self.index(),
    {
        match self {
            RelayProjectionCohort::TextV2 => {
                assert(1u8 << 0u8 == 1u8) by (bit_vector);
                1
            },
            RelayProjectionCohort::TextV3 => {
                assert(1u8 << 1u8 == 2u8) by (bit_vector);
                2
            },
            RelayProjectionCohort::BinaryDirectV2 => {
                assert(1u8 << 2u8 == 4u8) by (bit_vector);
                4
            },
            RelayProjectionCohort::BinaryDirectV3 => {
                assert(1u8 << 3u8 == 8u8) by (bit_vector);
                8
            },
            RelayProjectionCohort::BinaryFallbackV2 => {
                assert(1u8 << 4u8 == 16u8) by (bit_vector);
                16
            },
            RelayProjectionCohort::BinaryFallbackV3 => {
                assert(1u8 << 5u8 == 32u8) by (bit_vector);
                32
            },
        }
    }

    /// Whether the recipient cannot take the payload's own encoding.
    pub fn is_binary_fallback(self) -> (fallback: bool)
        ensures
            fallback == self.spec_is_binary_fallback(),
    {
        matches!(self, RelayProjectionCohort::BinaryFallbackV2 | RelayProjectionCohort::BinaryFallbackV3)
    }
}

/// The cohort of a recipient, or `None` where projecting the frame for it is
/// no work worth sharing.
pub open spec fn projection_cohort(
    message: ServerMessage,
    supports_v3: bool,
    recipient_format: GameDataEncoding,
) -> Option<RelayProjectionCohort> {
    match message {
        ServerMessage::GameData { .. } => Some(
            if supports_v3 {
                RelayProjectionCohort::TextV3
            } else {
                RelayProjectionCohort::TextV2
            },
        ),
        ServerMessage::GameDataBinary { encoding, .. } => if encoding == recipient_format {
            if supports_v3 {
                Some(RelayProjectionCohort::BinaryDirectV3)
            } else if encoding is MessagePack {
                Some(RelayProjectionCohort::BinaryDirectV2)
            } else {
                // Raw passthrough: the payload bytes are shared already.
                None
            }
        } else if supports_v3 {
            Some(RelayProjectionCohort::BinaryFallbackV3)
        } else {
            Some(RelayProjectionCohort::BinaryFallbackV2)
        },
        _ => None,
    }
}

/// The cohort of a recipient that negotiated `supports_v3` and
/// `recipient_format`.
pub fn relay_projection_cohort(
    message: &ServerMessage,
    supports_v3: bool,
    recipient_format: GameDataEncoding,
) -> (cohort: Option<RelayProjectionCohort>)
    ensures
        cohort == projection_cohort(*message, supports_v3, recipient_format),
{
    match message {
        ServerMessage::GameData { .. } => {
            if supports_v3 {
                Some(RelayProjectionCohort::TextV3)
            } else {
                Some(RelayProjectionCohort::TextV2)
            }
        },
        ServerMessage::GameDataBinary { encoding, .. } => {
            let direct = *encoding == recipient_format;
            let raw = matches!(encoding, GameDataEncoding::Json | GameDataEncoding::Rkyv);
            if !supports_v3 && direct && raw {
                None
            } else if direct && supports_v3 {
                Some(RelayProjectionCohort::BinaryDirectV3)
            } else if direct {
                Some(RelayProjectionCohort::BinaryDirectV2)
            } else if supports_v3 {
                Some(RelayProjectionCohort::BinaryFallbackV3)
            } else {
                Some(RelayProjectionCohort::BinaryFallbackV2)
            }
        },
        _ => None,
    }
}

/// Whether two cohorts share projection work: they are the same, or both need
/// the decoded fallback.
pub open spec fn shares_work(one: RelayProjectionCohort, other: RelayProjectionCohort) -> bool {
    one == other || (one.spec_is_binary_fallback() && other.spec_is_binary_fallback())
}

/// Whether two of the recipients share projection work.
pub open spec fn work_repeats(recipients: Seq<(bool, Option<RelayProjectionCohort>)>) -> bool {
    exists|i: int, j: int|
        #![trigger recipients[i], recipients[j]]
        0 <= i < j < recipients.len() && recipients[i].1 is Some && recipients[j].1 is Some
            && shares_work(recipients[i].1->0, recipients[j].1->0)
}

/// Whether every recipient has a classified queue.
pub open spec fn all_classified(recipients: Seq<(bool, Option<RelayProjectionCohort>)>) -> bool {
    forall|i: int| 0 <= i < recipients.len() ==> (#[trigger] recipients[i]).0
}

/// Whether a cohort occurs among the first `until` recipients.
spec fn seen_before(
    recipients: Seq<(bool, Option<RelayProjectionCohort>)>,
    until: int,
    cohort: RelayProjectionCohort,
) -> bool {
    exists|i: int| 0 <= i < until && (#[trigger] recipients[i]).1 == Some(cohort)
}

proof fn lemma_cohort_bits(seen: u8, one: RelayProjectionCohort, other: RelayProjectionCohort)
    ensures
        ((seen | (1u8 << one.index())) & (1u8 << other.index()) != 0) <==> (seen & (1u8
            << other.index()) != 0 || one == other),
        0u8 & (1u8 << other.index()) == 0,
{
    let a = one.index();
    let b = other.index();
    assert(((seen | (1u8 << a)) & (1u8 << b) != 0) <==> (seen & (1u8 << b) != 0 || a == b))
        by (bit_vector)
        requires
            a < 6,
            b < 6,
    ;
    assert(0u8 & (1u8 << b) == 0) by (bit_vector);
    assert(a == b ==> one == other);
}

/// Whether projection work repeats among the recipients, and whether all of
/// them have classified queues. The scan never stops early: a legacy recipient
/// behind a repetition is still observed.
pub fn relay_projection_summary(recipients: &[(bool, Option<RelayProjectionCohort>)]) -> (summary: (
    bool,
    bool,
))
    ensures
        summary.0 == work_repeats(recipients@),
        summary.1 == all_classified(recipients@),
{
    let mut seen: u8 = 0;
    let mut saw_binary_fallback = false;
    let mut repeats = false;
    let mut all_recipients_are_classified = true;
    let mut index: usize = 0;
    proof {
        assert forall|cohort: RelayProjectionCohort| #[trigger] cohort.index() < 6 implies (0u8 & (1u8
            << cohort.index()) != 0) == seen_before(recipients@, 0, cohort) by {
            lemma_cohort_bits(0, cohort, cohort);
        }
    }
    while index < recipients.len()
        invariant
            index <= recipients.len(),
            forall|cohort: RelayProjectionCohort|
                (seen & (1u8 << #[trigger] cohort.index()) != 0) == seen_before(
                    recipients@,
                    index as int,
                    cohort,
                ),
            saw_binary_fallback == (exists|i: int|
                0 <= i < index && (#[trigger] recipients@[i]).1 is Some
                    && recipients@[i].1->0.spec_is_binary_fallback()),
            repeats == work_repeats(recipients@.take(index as int)),
            all_recipients_are_classified == all_classified(recipients@.take(index as int)),
        decreases recipients.len() - index,
    {
        let (classified, cohort) = recipients[index];
        let ghost shorter = recipients@.take(index as int);
        let ghost longer = recipients@.take(index + 1);
        proof {
            assert(longer =~= shorter.push(recipients@[index as int]));
            assert(all_classified(longer) == (all_classified(shorter) && classified)) by {
                if all_classified(longer) {
                    assert forall|i: int| 0 <= i < shorter.len() implies (#[trigger] shorter[i]).0 by {
                        assert(longer[i].0);
                    }
                    assert(longer[index as int].0);
                }
            }
        }
        all_recipients_are_classified = all_recipients_are_classified && classified;
        match cohort {
            None => {
                proof {
                    assert(work_repeats(longer) == work_repeats(shorter)) by {
                        if work_repeats(longer) {
                            let (i, j) = choose|i: int, j: int|
                                #![trigger longer[i], longer[j]]
                                0 <= i < j < longer.len() && longer[i].1 is Some && longer[j].1 is Some
                                    && shares_work(longer[i].1->0, longer[j].1->0);
                            assert(j < index);
                            assert(shorter[i] == longer[i] && shorter[j] == longer[j]);
                        }
                        if work_repeats(shorter) {
                            let (i, j) = choose|i: int, j: int|
                                #![trigger shorter[i], shorter[j]]
                                0 <= i < j < shorter.len() && shorter[i].1 is Some && shorter[j].1 is Some
                                    && shares_work(shorter[i].1->0, shorter[j].1->0);
                            assert(shorter[i] == longer[i] && shorter[j] == longer[j]);
                        }
                    }
                    assert forall|c: RelayProjectionCohort|
                        seen_before(recipients@, index as int, c) == seen_before(
                            recipients@,
                            index + 1,
                            c,
                        ) by {}
                }
            },
            Some(cohort) => {
                let bit = cohort.cache_bit();
                let fallback = cohort.is_binary_fallback();
                let repeated = seen & bit != 0 || (fallback && saw_binary_fallback);
                proof {
                    assert(longer[index as int].1 == Some(cohort));
                    assert(work_repeats(longer) == (work_repeats(shorter) || repeated)) by {
                        if work_repeats(longer) {
                            let (i, j) = choose|i: int, j: int|
                                #![trigger longer[i], longer[j]]
                                0 <= i < j < longer.len() && longer[i].1 is Some && longer[j].1 is Some
                                    && shares_work(longer[i].1->0, longer[j].1->0);
                            assert(recipients@[i] == longer[i]);
                            if j < index {
                                assert(shorter[i] == longer[i] && shorter[j] == longer[j]);
                            } else if longer[i].1->0 == cohort {
                                assert(seen_before(recipients@, index as int, cohort));
                            }
                        }
                        if work_repeats(shorter) {
                            let (i, j) = choose|i: int, j: int|
                                #![trigger shorter[i], shorter[j]]
                                0 <= i < j < shorter.len() && shorter[i].1 is Some && shorter[j].1 is Some
                                    && shares_work(shorter[i].1->0, shorter[j].1->0);
                            assert(shorter[i] == longer[i] && shorter[j] == longer[j]);
                        }
                        if seen & bit != 0 {
                            assert(seen_before(recipients@, index as int, cohort));
                            let i = choose|i: int|
                                0 <= i < index && (#[trigger] recipients@[i]).1 == Some(cohort);
                            assert(longer[i] == recipients@[i]);
                            assert(shares_work(longer[i].1->0, longer[index as int].1->0));
                        }
                        if fallback && saw_binary_fallback {
                            let i = choose|i: int|
                                0 <= i < index && (#[trigger] recipients@[i]).1 is Some
                                    && recipients@[i].1->0.spec_is_binary_fallback();
                            assert(longer[i] == recipients@[i]);
                            assert(shares_work(longer[i].1->0, longer[index as int].1->0));
                        }
                    }
                    assert forall|c: RelayProjectionCohort|
                        ((seen | bit) & (1u8 << #[trigger] c.index()) != 0) == seen_before(
                            recipients@,
                            index + 1,
                            c,
                        ) by {
                        lemma_cohort_bits(seen, cohort, c);
                        assert(seen_before(recipients@, index + 1, c) == (seen_before(
                            recipients@,
                            index as int,
                            c,
                        ) || c == cohort)) by {
                            if seen_before(recipients@, index as int, c) {
                                let i = choose|i: int|
                                    0 <= i < index && (#[trigger] recipients@[i]).1 == Some(c);
                                assert(recipients@[i].1 == Some(c));
                            }
                            assert(recipients@[index as int].1 == Some(cohort));
                        }
                    }
                }
                repeats = repeats || repeated;
                seen = seen | bit;
                saw_binary_fallback = saw_binary_fallback || fallback;
            },
        }
        index += 1;
    }
    assert(recipients@.take(index as int) =~= recipients@);
    (repeats, all_recipients_are_classified)
}

/// Whether two of the cohorts share projection work.
pub fn relay_projection_work_repeats(cohorts: &[RelayProjectionCohort]) -> (repeats: bool)
    ensures
        repeats == exists|i: int, j: int|
            #![trigger cohorts@[i], cohorts@[j]]
            0 <= i < j < cohorts@.len() && shares_work(cohorts@[i], cohorts@[j]),
{
    let mut recipients: Vec<(bool, Option<RelayProjectionCohort>)> = Vec::new();
    let mut index: usize = 0;
    while index < cohorts.len()
        invariant
            index <= cohorts.len(),
            recipients@.len() == index,
            forall|i: int| 0 <= i < index ==> recipients@[i] == (true, Some(#[trigger] cohorts@[i])),
        decreases cohorts.len() - index,
    {
        recipients.push((true, Some(cohorts[index])));
        index += 1;
    }
    let (repeats, _) = relay_projection_summary(recipients.as_slice());
    proof {
        if repeats {
            let (i, j) = choose|i: int, j: int|
                #![trigger recipients@[i], recipients@[j]]
                0 <= i < j < recipients@.len() && recipients@[i].1 is Some && recipients@[j].1 is Some
                    && shares_work(recipients@[i].1->0, recipients@[j].1->0);
            assert(shares_work(cohorts@[i], cohorts@[j]));
        }
        if exists|i: int, j: int|
            #![trigger cohorts@[i], cohorts@[j]]
            0 <= i < j < cohorts@.len() && shares_work(cohorts@[i], cohorts@[j]) {
            let (i, j) = choose|i: int, j: int|
                #![trigger cohorts@[i], cohorts@[j]]
                0 <= i < j < cohorts@.len() && shares_work(cohorts@[i], cohorts@[j]);
            assert(recipients@[i] == (true, Some(cohorts@[i])));
            assert(recipients@[j] == (true, Some(cohorts@[j])));
        }
    }
    repeats
}

/// An authority change tells each recipient whether it is the authority itself,
/// and whose authority it is; every other frame goes out as it is.
pub proof fn law_authority_changes_address_each_recipient(message: ServerMessage, player: PlayerId)
    ensures
        !(message is AuthorityChanged) ==> message_for_recipient(message, player) == message,
        message matches ServerMessage::AuthorityChanged { authority_player, .. } ==> (
        message_for_recipient(message, player) matches ServerMessage::AuthorityChanged {
            authority_player: told,
            you_are_authority,
        } && told == authority_player && (you_are_authority <==> authority_player == Some(player))),
{
}

/// Two recipients fall in one cohort exactly if the frame is projected alike for
/// them: by their protocol and by whether they take the payload's own encoding.
/// A recipient falls in none exactly if the frame is no game data, or its bytes
/// pass through raw.
pub proof fn law_cohorts_share_their_projection(
    message: ServerMessage,
    supports_v3: bool,
    format: GameDataEncoding,
)
    ensures
        ({
            let cohort = projection_cohort(message, supports_v3, format);
            &&& message is GameData ==> cohort is Some && (supports_v3 <==> cohort->0 is TextV3) && (
            !supports_v3 <==> cohort->0 is TextV2)
            &&& message matches ServerMessage::GameDataBinary { encoding, .. } ==> {
                &&& cohort is None <==> !supports_v3 && encoding == format && encoding
                    != GameDataEncoding::MessagePack
                &&& cohort is Some ==> (cohort->0.spec_is_binary_fallback() <==> encoding != format)
                &&& cohort is Some ==> (supports_v3 <==> cohort->0 is BinaryDirectV3 || cohort->0
                    is BinaryFallbackV3)
                &&& cohort is Some ==> !(cohort->0 is TextV2) && !(cohort->0 is TextV3)
            }
            &&& !(message is GameData) && !(message is GameDataBinary) ==> cohort is None
        }),
{
}

/// Cohorts share work exactly if they are one, or both fall back to the decoded
/// payload.
pub proof fn law_fallback_cohorts_share_the_decoding(
    one: RelayProjectionCohort,
    other: RelayProjectionCohort,
)
    ensures
        shares_work(one, other) <==> one == other || ((one is BinaryFallbackV2 || one
            is BinaryFallbackV3) && (other is BinaryFallbackV2 || other is BinaryFallbackV3)),
        one.spec_is_binary_fallback() <==> one is BinaryFallbackV2 || one is BinaryFallbackV3,
        one.index() == other.index() ==> one == other,
{
}

} // verus!
