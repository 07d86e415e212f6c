//! Simulated packet loss: per direction, a configured percentage of
//! exchanges is classified as dropped, from one shared random number source.
use vstd::prelude::*;
use rand::rngs::StdRng;
use rand::Rng;
use crate::packet::{request_side, PacketType};

verus! {

#[verifier::external_type_specification]
#[verifier::external_body]
pub struct ExStdRng(StdRng);

/// Relies on `rand::Rng::gen::<u32>`: takes one value from the random source
/// (`RngCore::next_u32`); nothing is known of which.
#[verifier::external_body]
fn draw_u32(rng: &mut StdRng) -> (r: u32) {
    rng.gen::<u32>()
}

/// The undropped packet of the direction of `p`.
pub open spec fn delivered(p: PacketType) -> PacketType {
    if request_side(p) {
        PacketType::Request
    } else {
        PacketType::Response
    }
}

/// The dropped packet of the direction of `p`, with the given delay.
pub open spec fn dropped_as(p: PacketType, delay_ms: u64) -> PacketType {
    if request_side(p) {
        PacketType::RequestDropped(delay_ms)
    } else {
        PacketType::ResponseDropped(delay_ms)
    }
}

/// Whether a uniform draw over `u32` falls within a drop rate of `percent`
/// percent: the draw, read as a fraction of 2^32, is at most `percent / 100`.
pub open spec fn draw_drops(draw: u32, percent: u32) -> bool {
    (draw as int) * 100 <= (percent as int) * 4294967296
}

/// The classification of one direction given a drawn value.
pub fn classify_draw(direction: PacketType, percent: u32, draw: u32, delay_ms: u64) -> (r: PacketType)
    requires
        percent <= 100,
    ensures
        r == if draw_drops(draw, percent) {
            dropped_as(direction, delay_ms)
        } else {
            delivered(direction)
        },
{
    let lhs = (draw as u64) * 100;
    let rhs = (percent as u64) * 4294967296;
    let request = matches!(direction, PacketType::Request | PacketType::RequestDropped(_));
    if lhs <= rhs {
        if request {
            PacketType::RequestDropped(delay_ms)
        } else {
            PacketType::ResponseDropped(delay_ms)
        }
    } else {
        if request {
            PacketType::Request
        } else {
            PacketType::Response
        }
    }
}

/// The drop rates of both directions (in percent), the delay before a dropped
/// exchange fails (in milliseconds), and the random source the draws come from.
pub struct ChaosGate {
    pub rng: StdRng,
    pub request_rate: u32,
    pub response_rate: u32,
    pub delay_ms: u64,
    /// How many values have been drawn from the random source so far.
    pub draws: Ghost<nat>,
}

impl ChaosGate {
    /// Both rates are percentages.
    pub open spec fn wf(&self) -> bool {
        self.request_rate <= 100 && self.response_rate <= 100
    }

    /// The drop rate configured for the direction of `p`.
    pub open spec fn rate_for(&self, p: PacketType) -> u32 {
        if request_side(p) {
            self.request_rate
        } else {
            self.response_rate
        }
    }

    pub fn new(rng: StdRng, request_rate: u32, response_rate: u32, delay_ms: u64) -> (r: ChaosGate)
        requires
            request_rate <= 100,
            response_rate <= 100,
        ensures
            r.wf(),
            r.request_rate == request_rate,
            r.response_rate == response_rate,
            r.delay_ms == delay_ms,
            r.draws@ == 0,
    {
        ChaosGate { rng, request_rate, response_rate, delay_ms, draws: Ghost(0) }
    }

    /// Classifies the direction of `direction` as delivered or dropped. A zero
    /// rate never drops, draws nothing and changes nothing; a
    /// positive rate draws exactly one value, and a rate of 100 always drops.
    pub fn get_random_packet_type(&mut self, direction: PacketType) -> (r: PacketType)
        requires
            old(self).wf(),
        ensures
            final(self).wf(),
            final(self).request_rate == old(self).request_rate,
            final(self).response_rate == old(self).response_rate,
            final(self).delay_ms == old(self).delay_ms,
            old(self).rate_for(direction) == 0 ==> r == delivered(direction) && *final(self) == *old(self),
            old(self).rate_for(direction) > 0 ==> final(self).draws@ == old(self).draws@ + 1,
            old(self).rate_for(direction) == 100 ==> r == dropped_as(direction, old(self).delay_ms),
            r == delivered(direction) || r == dropped_as(direction, old(self).delay_ms),
    {
        let percent = if matches!(direction, PacketType::Request | PacketType::RequestDropped(_)) {
            self.request_rate
        } else {
            self.response_rate
        };
        if percent == 0 {
            return if matches!(direction, PacketType::Request | PacketType::RequestDropped(_)) {
                PacketType::Request
            } else {
                PacketType::Response
            };
        }
        let draw = draw_u32(&mut self.rng);
        self.draws = Ghost(self.draws@ + 1);
        classify_draw(direction, percent, draw, self.delay_ms)
    }
}

} // verus!
