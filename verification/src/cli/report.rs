//! Command output: the output format switch and the one-line JSON report of a command.
use vstd::prelude::*;
use vstd::string::StringSliceAdditionalSpecFns;
use vstd::utf8::encode_utf8;
use crate::codec::bytes_eq_at;
use crate::digest::hex_of;
use crate::siem_sink::opt_number;
use crate::text::{decimal, json_escaped, push_decimal, push_hex, push_json_escaped, push_str};

verus! {

/// How a command reports its result.
#[derive(Clone, Copy, Debug, PartialEq, Eq, Structural)]
pub enum OutputFormat {
    Text,
    Json,
}

/// An output format name other than `text` and `json`.
#[derive(Clone, Copy, Debug, PartialEq, Eq, Structural)]
pub enum OutputFormatError {
    Unsupported,
}

impl Default for OutputFormat {
    fn default() -> (f: Self)
        ensures
            f == OutputFormat::Text,
    {
        OutputFormat::Text
    }
}

impl OutputFormat {
    /// Parses `text` or `json`; any other name is refused.
    pub fn parse(text: &str) -> (res: Result<OutputFormat, OutputFormatError>)
        ensures
            text.spec_bytes() == seq![0x74u8, 0x65u8, 0x78u8, 0x74u8] ==> res == Ok::<
                OutputFormat,
                OutputFormatError,
            >(OutputFormat::Text),
            text.spec_bytes() == seq![0x6au8, 0x73u8, 0x6fu8, 0x6eu8] ==> res == Ok::<
                OutputFormat,
                OutputFormatError,
            >(OutputFormat::Json),
            text.spec_bytes() != seq![0x74u8, 0x65u8, 0x78u8, 0x74u8] && text.spec_bytes() != seq![
                0x6au8,
                0x73u8,
                0x6fu8,
                0x6eu8,
            ] ==> res == Err::<OutputFormat, OutputFormatError>(OutputFormatError::Unsupported),
    {
        let b = text.as_bytes();
        let text_name: [u8; 4] = [0x74, 0x65, 0x78, 0x74];
        let json_name: [u8; 4] = [0x6a, 0x73, 0x6f, 0x6e];
        proof {
            assert(text_name@ =~= seq![0x74u8, 0x65u8, 0x78u8, 0x74u8]);
            assert(json_name@ =~= seq![0x6au8, 0x73u8, 0x6fu8, 0x6eu8]);
            if b@.len() == 4 {
                assert(b@.subrange(0, 4) =~= b@);
            }
        }
        if b.len() == 4 && bytes_eq_at(b, 0, &text_name) {
            Ok(OutputFormat::Text)
        } else if b.len() == 4 && bytes_eq_at(b, 0, &json_name) {
            Ok(OutputFormat::Json)
        } else {
            Err(OutputFormatError::Unsupported)
        }
    }
}

/// The result of a command, as reported in JSON.
pub struct CommandJsonReport {
    pub command: &'static str,
    pub outcome: &'static str,
    pub asset_id: Vec<u8>,
    pub merkle_root: Option<[u8; 32]>,
    pub release_counter: Option<u64>,
    pub blocks: Option<usize>,
    pub bytes: Option<usize>,
    pub dry_run: bool,
}

/// Optional count field: `name` then the decimal count, or nothing.
pub open spec fn opt_count(name: Seq<u8>, v: Option<usize>) -> Seq<u8> {
    match v {
        Some(x) => name + decimal(x as nat),
        None => Seq::empty(),
    }
}

/// The report's JSON line.
pub open spec fn report_json(r: CommandJsonReport) -> Seq<u8> {
    encode_utf8("{\"schema_version\":1,\"command\":\""@) + r.command.spec_bytes() + encode_utf8(
        "\",\"outcome\":\""@,
    ) + r.outcome.spec_bytes() + encode_utf8("\",\"asset_id\":\""@) + json_escaped(r.asset_id@, false)
        + encode_utf8("\""@) + opt_count(encode_utf8(",\"blocks\":"@), r.blocks) + opt_count(
        encode_utf8(",\"bytes\":"@),
        r.bytes,
    ) + opt_number(encode_utf8(",\"release_counter\":"@), r.release_counter) + match r.merkle_root {
        Some(root) => encode_utf8(",\"merkle_root\":\""@) + hex_of(root@) + encode_utf8("\""@),
        None => Seq::empty(),
    } + if r.dry_run {
        encode_utf8(",\"dry_run\":true"@)
    } else {
        Seq::empty()
    } + encode_utf8("}\n"@)
}

fn push_opt_count(out: &mut Vec<u8>, name: &str, v: Option<usize>)
    ensures
        final(out)@ == old(out)@ + opt_count(name.spec_bytes(), v),
{
    match v {
        Some(x) => {
            push_str(out, name);
            push_decimal(out, x as u64);
        },
        None => {},
    }
    assert(final(out)@ =~= old(out)@ + opt_count(name.spec_bytes(), v));
}

impl CommandJsonReport {
    /// The report as one JSON line.
    pub fn to_json_line(&self) -> (line: Vec<u8>)
        ensures
            line@ == report_json(*self),
    {
        let mut line: Vec<u8> = Vec::new();
        push_str(&mut line, "{\"schema_version\":1,\"command\":\"");
        push_str(&mut line, self.command);
        push_str(&mut line, "\",\"outcome\":\"");
        push_str(&mut line, self.outcome);
        push_str(&mut line, "\",\"asset_id\":\"");
        push_json_escaped(&mut line, self.asset_id.as_slice(), false);
        push_str(&mut line, "\"");
        push_opt_count(&mut line, ",\"blocks\":", self.blocks);
        push_opt_count(&mut line, ",\"bytes\":", self.bytes);
        let ghost before_release = line@;
        match self.release_counter {
            Some(c) => {
                push_str(&mut line, ",\"release_counter\":");
                push_decimal(&mut line, c);
            },
            None => {},
        }
        assert(line@ =~= before_release + opt_number(encode_utf8(",\"release_counter\":"@), self.release_counter));
        let ghost before_root = line@;
        match self.merkle_root {
            Some(root) => {
                push_str(&mut line, ",\"merkle_root\":\"");
                push_hex(&mut line, &root);
                push_str(&mut line, "\"");
            },
            None => {},
        }
        let ghost before_dry = line@;
        if self.dry_run {
            push_str(&mut line, ",\"dry_run\":true");
        }
        let ghost before_end = line@;
        push_str(&mut line, "}\n");
        proof {
            let root_part = match self.merkle_root {
                Some(root) => encode_utf8(",\"merkle_root\":\""@) + hex_of(root@) + encode_utf8("\""@),
                None => Seq::<u8>::empty(),
            };
            assert(before_dry =~= before_root + root_part);
            let dry_part = if self.dry_run {
                encode_utf8(",\"dry_run\":true"@)
            } else {
                Seq::<u8>::empty()
            };
            assert(before_end =~= before_dry + dry_part);
            assert(line@ =~= report_json(*self));
        }
        line
    }
}

} // verus!
