//! The rules of the publisher: how it authenticates and how it batches.
//!
//! Records are published in batches. A batch gathers serialized records for a
//! limited time and up to a limited size; a record that would take the batch
//! beyond the size is held back and begins the next batch.

use vstd::prelude::*;

verus! {

/// The credentials of SASL authentication.
#[derive(Clone, Debug)]
pub struct SaslAuth {
    pub username: String,
    pub password: String,
    pub mechanism: String,
}

/// How the publisher authenticates to the bus.
#[derive(Clone, Debug)]
pub enum KafkaAuth {
    SasalPlainText(SaslAuth),
    PlainText,
}

/// Why the publisher cannot start.
#[derive(Clone, Copy, Debug, PartialEq, Eq, Structural)]
pub enum ProducerError {
    /// The authentication protocol is neither `PLAINTEXT` nor
    /// `SASL_PLAINTEXT`.
    InvalidAuthProtocol,
}

/// The mathematical value of a way to authenticate.
pub enum AuthModel {
    Sasl { username: Seq<char>, password: Seq<char>, mechanism: Seq<char> },
    Plain,
}

impl View for KafkaAuth {
    type V = AuthModel;

    open spec fn view(&self) -> AuthModel {
        match *self {
            KafkaAuth::SasalPlainText(auth) => AuthModel::Sasl {
                username: auth.username@,
                password: auth.password@,
                mechanism: auth.mechanism@,
            },
            KafkaAuth::PlainText => AuthModel::Plain,
        }
    }
}

/// The way to authenticate that a protocol name selects: none for `PLAINTEXT`,
/// SASL with the given credentials for `SASL_PLAINTEXT`, and no way at all
/// for any other name.
pub open spec fn auth_for(
    protocol: Seq<char>,
    username: Seq<char>,
    password: Seq<char>,
    mechanism: Seq<char>,
) -> Result<AuthModel, ProducerError> {
    if protocol == "PLAINTEXT"@ {
        Ok(AuthModel::Plain)
    } else if protocol == "SASL_PLAINTEXT"@ {
        Ok(AuthModel::Sasl { username, password, mechanism })
    } else {
        Err(ProducerError::InvalidAuthProtocol)
    }
}

/// Selects the way to authenticate by the name of the protocol.
pub fn kafka_auth(protocol: &String, username: &String, password: &String, mechanism: &String)
    -> (r: Result<KafkaAuth, ProducerError>)
    ensures
        match auth_for(protocol@, username@, password@, mechanism@) {
            Ok(model) => r matches Ok(auth) && auth@ == model,
            Err(e) => r matches Err(f) && f == e,
        },
{
    let plain = "PLAINTEXT".to_owned();
    let sasl = "SASL_PLAINTEXT".to_owned();
    if *protocol == plain {
        Ok(KafkaAuth::PlainText)
    } else if *protocol == sasl {
        Ok(
            KafkaAuth::SasalPlainText(
                SaslAuth {
                    username: username.clone(),
                    password: password.clone(),
                    mechanism: mechanism.clone(),
                },
            ),
        )
    } else {
        Err(ProducerError::InvalidAuthProtocol)
    }
}

/// Whether a batch that began at `start` has gathered for longer than
/// `wait` at the time `now`, all in milliseconds.
pub open spec fn batch_expired(start: u64, now: u64, wait: u64) -> bool {
    now > start && now - start > wait
}

/// Whether the time of a batch is up.
pub fn deadline_passed(start: u64, now: u64, wait: u64) -> (r: bool)
    ensures
        r == batch_expired(start, now, wait),
{
    now > start && now - start > wait
}

/// A batch in the making and the record held back for the next one.
pub struct Batcher {
    payload: Vec<u8>,
    n_messages: usize,
    carry: Option<Vec<u8>>,
}

/// The octets of an optional record: none where there is no record.
pub open spec fn octets_or_none(record: Option<Seq<u8>>) -> Seq<u8> {
    match record {
        Some(octets) => octets,
        None => Seq::empty(),
    }
}

impl Batcher {
    /// The octets gathered for the batch in the making.
    pub closed spec fn payload(self) -> Seq<u8> {
        self.payload@
    }

    /// The number of records gathered for the batch in the making.
    pub closed spec fn count(self) -> nat {
        self.n_messages as nat
    }

    /// The record held back for the next batch.
    pub closed spec fn carry(self) -> Option<Seq<u8>> {
        match self.carry {
            Some(record) => Some(record@),
            None => None,
        }
    }

    /// All the octets that are still to be published, in order.
    pub open spec fn pending(self) -> Seq<u8> {
        self.payload() + octets_or_none(self.carry())
    }

    /// A batcher with nothing gathered and nothing held back.
    pub fn new() -> (r: Batcher)
        ensures
            r.payload() == Seq::<u8>::empty(),
            r.count() == 0,
            r.carry() is None,
    {
        Batcher { payload: Vec::new(), n_messages: 0, carry: None }
    }

    /// Whether a record of `len` octets fits the batch in the making under
    /// the limit `max_bytes`.
    pub open spec fn fits(self, len: nat, max_bytes: usize) -> bool {
        self.payload().len() + len <= max_bytes
    }

    /// Begins a batch with the record that was held back, where there is
    /// one. To be called when the batch in the making is empty.
    pub fn begin(&mut self)
        requires
            old(self).payload().len() == 0,
            old(self).count() == 0,
        ensures
            final(self).payload() == octets_or_none(old(self).carry()),
            final(self).carry() is None,
            final(self).count() == (if old(self).carry() is Some {
                1nat
            } else {
                0nat
            }),
            final(self).pending() == old(self).pending(),
    {
        let mut carry: Option<Vec<u8>> = None;
        core::mem::swap(&mut self.carry, &mut carry);
        match carry {
            Some(record) => {
                self.n_messages = 1;
                self.payload = record;
            },
            None => {},
        }
        assert(self.pending() =~= old(self).pending());
    }

    /// Offers a serialized record to the batch in the making. A record that
    /// fits under the limit `max_bytes` is gathered; one that does not is
    /// held back for the next batch, and the batch is to be published as it
    /// is. Says whether the record was gathered. Either way no octet is lost:
    /// what is pending grows by the record.
    pub fn offer(&mut self, record: Vec<u8>, max_bytes: usize) -> (gathered: bool)
        requires
            old(self).carry() is None,
        ensures
            gathered == old(self).fits(record@.len(), max_bytes),
            gathered ==> final(self).payload() == old(self).payload() + record@
                && final(self).carry() is None && final(self).count() == (if old(self).count()
                < usize::MAX {
                old(self).count() + 1
            } else {
                old(self).count()
            }),
            !gathered ==> final(self).payload() == old(self).payload() && final(self).carry()
                == Some(record@) && final(self).count() == old(self).count(),
            final(self).pending() == old(self).pending() + record@,
    {
        let ghost before = self.payload@;
        if record.len() > max_bytes || self.payload.len() > max_bytes - record.len() {
            self.carry = Some(record);
            false
        } else {
            let mut record = record;
            let ghost added = record@;
            self.payload.append(&mut record);
            if self.n_messages < usize::MAX {
                self.n_messages = self.n_messages + 1;
            }
            assert(self.pending() =~= before + added);
            true
        }
    }

    /// Takes the batch in the making, to be published as one message, and
    /// leaves an empty one; nothing where nothing was gathered. The record
    /// held back stays.
    pub fn take(&mut self) -> (r: Option<Vec<u8>>)
        ensures
            final(self).payload().len() == 0,
            final(self).count() == 0,
            final(self).carry() == old(self).carry(),
            match r {
                Some(batch) => batch@ == old(self).payload() && batch@.len() > 0,
                None => old(self).payload().len() == 0,
            },
    {
        if self.payload.len() == 0 {
            self.n_messages = 0;
            None
        } else {
            let mut batch: Vec<u8> = Vec::new();
            core::mem::swap(&mut self.payload, &mut batch);
            self.n_messages = 0;
            Some(batch)
        }
    }

    /// Whether a record is held back for the next batch.
    pub fn has_carry(&self) -> (r: bool)
        ensures
            r == (self.carry() is Some),
    {
        self.carry.is_some()
    }

    /// The number of records in the batch in the making.
    pub fn n_messages(&self) -> (n: usize)
        ensures
            n == self.count(),
    {
        self.n_messages
    }

    /// The number of octets in the batch in the making.
    pub fn len(&self) -> (n: usize)
        ensures
            n == self.payload().len(),
    {
        self.payload.len()
    }
}

} // verus!
