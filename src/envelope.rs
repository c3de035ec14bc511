use vstd::prelude::*;

verus! {

/// The three independent message categories carried over one transport.
#[derive(Clone, Copy, Debug, PartialEq, Eq, Structural)]
pub enum Lane {
    Election,
    Replication,
    Command,
}

/// A lane tag with its payload, the payload being the JSON text of the
/// lane-specific body.
#[derive(Debug)]
pub struct Envelope {
    pub lane: Lane,
    pub payload: String,
}

/// The name of a lane on the wire.
pub open spec fn lane_tag(lane: Lane) -> Seq<char> {
    match lane {
        Lane::Election => "Election"@,
        Lane::Replication => "Replication"@,
        Lane::Command => "Command"@,
    }
}

/// The text of a frame up to its payload.
pub open spec fn frame_head(lane: Lane) -> Seq<char> {
    "{\"lane\":\""@ + lane_tag(lane) + "\",\"payload\":"@
}

/// A frame as `encode` writes it: a JSON object and a line terminator.
pub open spec fn frame_line(lane: Lane, payload: Seq<char>) -> Seq<char> {
    frame_head(lane) + payload + "}\n"@
}

/// A frame whose line terminator was cut off by the end of the stream.
pub open spec fn frame_unterminated(lane: Lane, payload: Seq<char>) -> Seq<char> {
    frame_head(lane) + payload + "}"@
}

/// `s` holds no line terminator.
pub open spec fn no_newline(s: Seq<char>) -> bool {
    forall|i: int| 0 <= i < s.len() ==> s[i] != '\n'
}

/// `line` carries `payload` on `lane`, with or without its terminator.
pub open spec fn is_frame(line: Seq<char>, lane: Lane, payload: Seq<char>) -> bool {
    &&& no_newline(payload)
    &&& (line == frame_line(lane, payload) || line == frame_unterminated(lane, payload))
}

/// `s` is one JSON value, as serde_json reads it.
pub uninterp spec fn json_text(s: Seq<char>) -> bool;

/// Relies on serde_json::from_str: whether `s` parses as one JSON value,
/// which depends on the text alone.
#[verifier::external_body]
fn is_json(s: &str) -> (r: bool)
    ensures
        r == json_text(s@),
{
    serde_json::from_str::<serde_json::Value>(s).is_ok()
}

fn lane_tag_str(lane: Lane) -> (r: &'static str)
    ensures
        r@ == lane_tag(lane),
{
    match lane {
        Lane::Election => "Election",
        Lane::Replication => "Replication",
        Lane::Command => "Command",
    }
}

fn frame_head_string(lane: Lane) -> (r: String)
    ensures
        r@ == frame_head(lane),
{
    let mut head = String::from_str("{\"lane\":\"");
    head.append(lane_tag_str(lane));
    head.append("\",\"payload\":");
    head
}

/// Whether `s` holds no line terminator.
pub fn has_no_newline(s: &str) -> (r: bool)
    ensures
        r == no_newline(s@),
{
    let n = s.unicode_len();
    let mut i: usize = 0;
    while i < n
        invariant
            n == s@.len(),
            i <= n,
            forall|j: int| 0 <= j < i ==> s@[j] != '\n',
        decreases n - i,
    {
        if s.get_char(i) == '\n' {
            return false;
        }
        i = i + 1;
    }
    true
}

proof fn lemma_tags_differ(a: Lane, b: Lane)
    requires
        a != b,
    ensures
        lane_tag(a)[0] != lane_tag(b)[0],
        lane_tag(a).len() > 0,
{
    reveal_strlit("Election");
    reveal_strlit("Replication");
    reveal_strlit("Command");
}

/// A line is a frame of at most one lane and payload.
pub proof fn lemma_frame_unique(line: Seq<char>, l1: Lane, p1: Seq<char>, l2: Lane, p2: Seq<char>)
    requires
        is_frame(line, l1, p1),
        is_frame(line, l2, p2),
    ensures
        l1 == l2,
        p1 == p2,
{
    reveal_strlit("{\"lane\":\"");
    reveal_strlit("}\n");
    reveal_strlit("}");
    reveal_strlit("Election");
    reveal_strlit("Replication");
    reveal_strlit("Command");
    let open = "{\"lane\":\""@;
    assert(open.len() == 9);
    if l1 != l2 {
        lemma_tags_differ(l1, l2);
        assert(line[9] == lane_tag(l1)[0]);
        assert(line[9] == lane_tag(l2)[0]);
    }
    let h = frame_head(l1).len() as int;
    let n = line.len() as int;
    if line == frame_line(l1, p1) && line == frame_unterminated(l2, p2) {
        assert(line[n - 1] == '\n');
        assert(line[n - 1] == '}');
    }
    if line == frame_unterminated(l1, p1) && line == frame_line(l2, p2) {
        assert(line[n - 1] == '}');
        assert(line[n - 1] == '\n');
    }
    if line == frame_line(l1, p1) && line == frame_line(l2, p2) {
        assert(p1 == line.subrange(h, n - 2));
        assert(p2 == line.subrange(h, n - 2));
    }
    if line == frame_unterminated(l1, p1) && line == frame_unterminated(l2, p2) {
        assert(p1 == line.subrange(h, n - 1));
        assert(p2 == line.subrange(h, n - 1));
    }
}

/// Decoding what encoding wrote gives back the lane and the payload.
pub proof fn lemma_envelope_round_trip(lane: Lane, payload: Seq<char>)
    requires
        no_newline(payload),
    ensures
        forall|l: Lane, p: Seq<char>|
            is_frame(frame_line(lane, payload), l, p) <==> (l == lane && p == payload),
        json_text(payload) ==> forall|l: Lane, p: Seq<char>|
            (is_frame(frame_line(lane, payload), l, p) && json_text(p)) <==> (l == lane && p
                == payload),
{
    assert forall|l: Lane, p: Seq<char>|
        is_frame(frame_line(lane, payload), l, p) implies (l == lane && p == payload) by {
        lemma_frame_unique(frame_line(lane, payload), lane, payload, l, p);
    }
}

/// The payload of `line` if it is a frame of `lane`.
fn match_frame(line: &str, lane: Lane) -> (r: Option<String>)
    ensures
        match r {
            Some(p) => is_frame(line@, lane, p@),
            None => forall|p: Seq<char>| !is_frame(line@, lane, p),
        },
{
    proof {
        reveal_strlit("}\n");
        reveal_strlit("}");
    }
    let head = frame_head_string(lane);
    let h = head.as_str().unicode_len();
    let n = line.unicode_len();
    let end: usize = if n > 0 && line.get_char(n - 1) == '\n' {
        n - 1
    } else {
        n
    };
    if end <= h || line.get_char(end - 1) != '}' {
        proof {
            assert forall|p: Seq<char>| !is_frame(line@, lane, p) by {
                if line@ == frame_line(lane, p) {
                    assert(line@[n - 1] == '\n');
                    assert(line@[n - 2] == '}');
                }
                if line@ == frame_unterminated(lane, p) {
                    assert(line@[n - 1] == '}');
                }
            }
        }
        return None;
    }
    let start = String::from_str(line.substring_char(0, h));
    if start != head {
        proof {
            assert forall|p: Seq<char>| !is_frame(line@, lane, p) by {
                if line@ == frame_line(lane, p) || line@ == frame_unterminated(lane, p) {
                    assert(line@.subrange(0, h as int) == head@);
                }
            }
        }
        return None;
    }
    let payload = line.substring_char(h, end - 1);
    if !has_no_newline(payload) {
        proof {
            assert forall|p: Seq<char>| !is_frame(line@, lane, p) by {
                if line@ == frame_line(lane, p) {
                    assert(line@[n - 1] == '\n');
                    assert(p == payload@);
                }
                if line@ == frame_unterminated(lane, p) {
                    assert(line@[n - 1] == '}');
                    assert(p == payload@);
                }
            }
        }
        return None;
    }
    proof {
        if end == n - 1 {
            assert(line@ == frame_line(lane, payload@));
        } else {
            assert(line@ == frame_unterminated(lane, payload@));
        }
    }
    Some(String::from_str(payload))
}

impl Envelope {
    /// `self` can be written as one line: its payload holds no line terminator.
    pub open spec fn wf(&self) -> bool {
        no_newline(self.payload@)
    }

    /// The frame of this envelope: one JSON object and a line terminator.
    pub fn encode(&self) -> (r: String)
        requires
            self.wf(),
        ensures
            r@ == frame_line(self.lane, self.payload@),
            is_frame(r@, self.lane, self.payload@),
    {
        let mut line = frame_head_string(self.lane);
        line.append(self.payload.as_str());
        line.append("}\n");
        line
    }

    /// The envelope that `line` is the frame of, if it is one, whatever its
    /// payload holds.
    pub fn parse_frame(line: &str) -> (r: Option<Envelope>)
        ensures
            forall|l: Lane, p: Seq<char>|
                #![trigger is_frame(line@, l, p)]
                is_frame(line@, l, p) <==> (r is Some && r->0.lane == l && r->0.payload@ == p),
            r is Some ==> r->0.wf(),
    {
        let mut found: Option<Envelope> = None;
        if let Some(p) = match_frame(line, Lane::Election) {
            found = Some(Envelope { lane: Lane::Election, payload: p });
        } else if let Some(p) = match_frame(line, Lane::Replication) {
            found = Some(Envelope { lane: Lane::Replication, payload: p });
        } else if let Some(p) = match_frame(line, Lane::Command) {
            found = Some(Envelope { lane: Lane::Command, payload: p });
        }
        proof {
            if found is Some {
                let e = found->0;
                assert forall|l: Lane, p: Seq<char>|
                    is_frame(line@, l, p) implies (l == e.lane && p == e.payload@) by {
                    lemma_frame_unique(line@, l, p, e.lane, e.payload@);
                }
            } else {
                assert forall|l: Lane, p: Seq<char>| !is_frame(line@, l, p) by {
                    match l {
                        Lane::Election => {},
                        Lane::Replication => {},
                        Lane::Command => {},
                    }
                }
            }
        }
        found
    }

    /// The envelope that `line` is the frame of, if it is one and its
    /// payload is a JSON value; `None` for any other line.
    pub fn decode(line: &str) -> (r: Option<Envelope>)
        ensures
            forall|l: Lane, p: Seq<char>|
                #![trigger is_frame(line@, l, p)]
                (is_frame(line@, l, p) && json_text(p)) <==> (r is Some && r->0.lane == l
                    && r->0.payload@ == p),
            r is Some ==> r->0.wf() && json_text(r->0.payload@),
    {
        match Envelope::parse_frame(line) {
            Some(e) => if is_json(e.payload.as_str()) {
                Some(e)
            } else {
                None
            },
            None => None,
        }
    }
}

} // verus!
