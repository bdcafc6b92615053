//! The vendor wire format: requests built from the window and the tool
//! schemas, responses read into text and tool invocations.

use vstd::prelude::*;

use crate::conversation::{
    args_json, lemma_filter_step, message_views, system_turns, write_args_json, ContextManager,
    MessageRole, MessageV,
};
use crate::json::{decimal, join, json_quote, lemma_join_push, quote, write_decimal};
use crate::text::{push_char, push_str};
use crate::tools::{
    argument_views, tool_args, tool_description, tool_name, ToolArgumentType, ToolArgumentV,
    ToolKind,
};
use crate::registry::ToolRegistry;
use crate::wire::{render_window, wire_views, window, BlockV, ContentBlock, WireMessage, WireMessageV, WireRole};

verus! {

/// A block as JSON.
pub open spec fn block_json(b: BlockV) -> Seq<char> {
    match b {
        BlockV::Text(t) => "{\"type\":\"text\",\"text\":"@ + json_quote(t) + "}"@,
        BlockV::ToolUse(id, name, input) => "{\"type\":\"tool_use\",\"id\":"@ + json_quote(id)
            + ",\"name\":"@ + json_quote(name) + ",\"input\":"@ + args_json(input) + "}"@,
        BlockV::ToolResult(id, content) => "{\"type\":\"tool_result\",\"tool_use_id\":"@
            + json_quote(id) + ",\"content\":"@ + content + "}"@,
    }
}

/// A role as JSON.
pub open spec fn role_json(r: WireRole) -> Seq<char> {
    match r {
        WireRole::User => "\"user\""@,
        WireRole::Assistant => "\"assistant\""@,
    }
}

/// A message as JSON.
pub open spec fn message_json(m: WireMessageV) -> Seq<char> {
    "{\"role\":"@ + role_json(m.role) + ",\"content\":["@ + join(
        m.blocks.map_values(|b: BlockV| block_json(b)),
        ","@,
    ) + "]}"@
}

/// The JSON schema type of an argument type.
pub open spec fn type_json(t: ToolArgumentType) -> Seq<char> {
    match t {
        ToolArgumentType::Integer => "\"integer\""@,
        ToolArgumentType::Float => "\"number\""@,
        ToolArgumentType::Boolean => "\"boolean\""@,
        _ => "\"string\""@,
    }
}

/// One argument as a property of an input schema.
pub open spec fn property_json(a: ToolArgumentV) -> Seq<char> {
    json_quote(a.name) + ":{\"type\":"@ + type_json(a.arg_type) + ",\"description\":"@
        + json_quote(a.description) + "}"@
}

/// The quoted names of the required arguments.
pub open spec fn required_names(args: Seq<ToolArgumentV>) -> Seq<Seq<char>>
    decreases args.len(),
{
    if args.len() == 0 {
        Seq::empty()
    } else if args.last().required {
        required_names(args.drop_last()).push(json_quote(args.last().name))
    } else {
        required_names(args.drop_last())
    }
}

/// A tool definition as JSON.
pub open spec fn tool_json(k: ToolKind) -> Seq<char> {
    "{\"name\":"@ + json_quote(tool_name(k)) + ",\"description\":"@ + json_quote(
        tool_description(k),
    ) + ",\"input_schema\":{\"type\":\"object\",\"properties\":{"@ + join(
        tool_args(k).map_values(|a: ToolArgumentV| property_json(a)),
        ","@,
    ) + "},\"required\":["@ + join(required_names(tool_args(k)), ","@) + "]}}"@
}

/// The system prompt: the texts of the system turns, a blank line apart.
pub open spec fn system_text(log: Seq<MessageV>) -> Seq<char> {
    join(system_turns(log).map_values(|m: MessageV| m.content), "\n\n"@)
}

/// A temperature given in hundredths, as a JSON number.
pub open spec fn temperature_json(t: nat) -> Seq<char> {
    decimal(t / 100) + "."@ + seq![crate::json::digit(((t / 10) % 10) as int), crate::json::digit((t % 10) as int)]
}

/// The request body for a log, the tools `kinds`, and the model settings.
pub open spec fn request_json(log: Seq<MessageV>, kinds: Seq<ToolKind>, max_tokens: nat, temperature: nat) -> Seq<char> {
    "{\"messages\":["@ + join(window(log).map_values(|m: WireMessageV| message_json(m)), ","@)
        + "],\"system\":"@ + json_quote(system_text(log)) + ",\"max_tokens\":"@ + decimal(
        max_tokens,
    ) + ",\"temperature\":"@ + temperature_json(temperature) + ",\"tools\":["@ + join(
        kinds.map_values(|k: ToolKind| tool_json(k)),
        ","@,
    ) + "],\"tool_choice\":{\"type\":\"auto\"},\"anthropic_version\":\"bedrock-2023-05-31\"}"@
}

/// Appends the JSON of a block to `out`.
pub fn write_block(out: &mut String, b: &ContentBlock)
    ensures
        final(out)@ == old(out)@ + block_json(b@),
{
    match b {
        ContentBlock::Text { text } => {
            push_str(out, "{\"type\":\"text\",\"text\":");
            let q = quote(text.as_str());
            push_str(out, q.as_str());
            push_str(out, "}");
        },
        ContentBlock::ToolUse { id, name, input } => {
            push_str(out, "{\"type\":\"tool_use\",\"id\":");
            let q = quote(id.as_str());
            push_str(out, q.as_str());
            push_str(out, ",\"name\":");
            let q = quote(name.as_str());
            push_str(out, q.as_str());
            push_str(out, ",\"input\":");
            write_args_json(out, input);
            push_str(out, "}");
        },
        ContentBlock::ToolResult { tool_use_id, content } => {
            push_str(out, "{\"type\":\"tool_result\",\"tool_use_id\":");
            let q = quote(tool_use_id.as_str());
            push_str(out, q.as_str());
            push_str(out, ",\"content\":");
            push_str(out, content.as_str());
            push_str(out, "}");
        },
    }
    assert(out@ =~= old(out)@ + block_json(b@));
}

/// Appends the JSON of a message to `out`.
pub fn write_message(out: &mut String, m: &WireMessage)
    ensures
        final(out)@ == old(out)@ + message_json(m@),
{
    push_str(out, "{\"role\":");
    match m.role {
        WireRole::User => push_str(out, "\"user\""),
        WireRole::Assistant => push_str(out, "\"assistant\""),
    }
    push_str(out, ",\"content\":[");
    let ghost head = out@;
    let ghost bs = m@.blocks;
    let mut i: usize = 0;
    while i < m.content.len()
        invariant
            i <= m.content.len(),
            bs == m@.blocks,
            out@ == head + join(bs.take(i as int).map_values(|b: BlockV| block_json(b)), ","@),
        decreases m.content.len() - i,
    {
        let ghost parts = bs.take(i as int).map_values(|b: BlockV| block_json(b));
        if i > 0 {
            push_str(out, ",");
        }
        write_block(out, &m.content[i]);
        proof {
            let x = block_json(m.content@[i as int]@);
            lemma_join_push(parts, ","@, x);
            assert(bs.take(i as int + 1).map_values(|b: BlockV| block_json(b)) =~= parts.push(x));
            assert(out@ =~= head + join(parts.push(x), ","@));
        }
        i += 1;
    }
    assert(bs.take(m.content.len() as int) =~= bs);
    push_str(out, "]}");
    assert(out@ =~= old(out)@ + message_json(m@));
}

/// Appends the JSON of an argument's schema property to `out`.
fn write_property(out: &mut String, a: &crate::tools::ToolArgument)
    ensures
        final(out)@ == old(out)@ + property_json(a@),
{
    let q = quote(a.name.as_str());
    push_str(out, q.as_str());
    push_str(out, ":{\"type\":");
    match a.arg_type {
        ToolArgumentType::Integer => push_str(out, "\"integer\""),
        ToolArgumentType::Float => push_str(out, "\"number\""),
        ToolArgumentType::Boolean => push_str(out, "\"boolean\""),
        _ => push_str(out, "\"string\""),
    }
    push_str(out, ",\"description\":");
    let q = quote(a.description.as_str());
    push_str(out, q.as_str());
    push_str(out, "}");
    assert(out@ =~= old(out)@ + property_json(a@));
}

/// Appends the JSON of a tool definition to `out`.
pub fn write_tool(out: &mut String, k: ToolKind)
    ensures
        final(out)@ == old(out)@ + tool_json(k),
{
    push_str(out, "{\"name\":");
    let q = quote(k.name().as_str());
    push_str(out, q.as_str());
    push_str(out, ",\"description\":");
    let q = quote(k.description().as_str());
    push_str(out, q.as_str());
    push_str(out, ",\"input_schema\":{\"type\":\"object\",\"properties\":{");
    let args = k.required_args();
    let ghost av = argument_views(args@);
    let ghost head = out@;
    let mut i: usize = 0;
    while i < args.len()
        invariant
            i <= args.len(),
            av == argument_views(args@),
            out@ == head + join(av.take(i as int).map_values(|a: ToolArgumentV| property_json(a)), ","@),
        decreases args.len() - i,
    {
        let ghost parts = av.take(i as int).map_values(|a: ToolArgumentV| property_json(a));
        if i > 0 {
            push_str(out, ",");
        }
        let a = &args[i];
        write_property(out, a);
        proof {
            let x = property_json(a@);
            lemma_join_push(parts, ","@, x);
            assert(av.take(i as int + 1).map_values(|a: ToolArgumentV| property_json(a)) =~= parts.push(x));
            assert(out@ =~= head + join(parts.push(x), ","@));
        }
        i += 1;
    }
    assert(av.take(args.len() as int) =~= av);
    push_str(out, "},\"required\":[");
    let ghost head2 = out@;
    let mut j: usize = 0;
    let mut any = false;
    while j < args.len()
        invariant
            j <= args.len(),
            av == argument_views(args@),
            out@ == head2 + join(required_names(av.take(j as int)), ","@),
            any == (required_names(av.take(j as int)).len() > 0),
        decreases args.len() - j,
    {
        let ghost parts = required_names(av.take(j as int));
        proof {
            assert(av.take(j as int + 1).drop_last() =~= av.take(j as int));
        }
        if args[j].required {
            if any {
                push_str(out, ",");
            }
            let q = quote(args[j].name.as_str());
            push_str(out, q.as_str());
            any = true;
            proof {
                lemma_join_push(parts, ","@, json_quote(args@[j as int].name@));
                assert(out@ =~= head2 + join(parts.push(json_quote(args@[j as int].name@)), ","@));
            }
        }
        j += 1;
    }
    assert(av.take(args.len() as int) =~= av);
    push_str(out, "]}}");
    assert(out@ =~= old(out)@ + tool_json(k));
}


/// The system prompt of a log.
pub fn system_prompt(ctx: &ContextManager) -> (r: String)
    ensures
        r@ == system_text(ctx.log()),
{
    let msgs = ctx.messages();
    let ghost log = ctx.log();
    let mut out = String::new();
    let mut any = false;
    let mut i: usize = 0;
    while i < msgs.len()
        invariant
            i <= msgs.len(),
            log == message_views(msgs@),
            out@ == system_text(log.take(i as int)),
            any == (system_turns(log.take(i as int)).len() > 0),
        decreases msgs.len() - i,
    {
        proof {
            lemma_filter_step(log, i as int);
        }
        let ghost parts = system_turns(log.take(i as int)).map_values(|m: MessageV| m.content);
        if msgs[i].role == MessageRole::System {
            if any {
                push_str(&mut out, "\n\n");
            }
            push_str(&mut out, msgs[i].content.as_str());
            any = true;
            proof {
                let x = log[i as int].content;
                lemma_join_push(parts, "\n\n"@, x);
                assert(system_turns(log.take(i as int + 1)).map_values(|m: MessageV| m.content)
                    =~= parts.push(x));
            }
        } else {
            assert(system_turns(log.take(i as int + 1)).map_values(|m: MessageV| m.content)
                =~= parts);
        }
        i += 1;
    }
    assert(log.take(msgs.len() as int) =~= log);
    out
}

/// Builds the request body for the conversation in `ctx`, offering the
/// tools of `tools`.
pub fn build_request(ctx: &ContextManager, tools: &ToolRegistry, max_tokens: u64, temperature: u64) -> (r: String)
    ensures
        r@ == request_json(ctx.log(), tools.registered(), max_tokens as nat, temperature as nat),
{
    let mut out = String::new();
    push_str(&mut out, "{\"messages\":[");
    let w = render_window(ctx.messages());
    let ghost wv = wire_views(w@);
    assert(wv == window(ctx.log()));
    let ghost head = out@;
    let mut i: usize = 0;
    while i < w.len()
        invariant
            i <= w.len(),
            wv == wire_views(w@),
            out@ == head + join(wv.take(i as int).map_values(|m: WireMessageV| message_json(m)), ","@),
        decreases w.len() - i,
    {
        let ghost parts = wv.take(i as int).map_values(|m: WireMessageV| message_json(m));
        if i > 0 {
            push_str(&mut out, ",");
        }
        write_message(&mut out, &w[i]);
        proof {
            let x = message_json(w@[i as int]@);
            lemma_join_push(parts, ","@, x);
            assert(wv.take(i as int + 1).map_values(|m: WireMessageV| message_json(m)) =~= parts.push(x));
        }
        i += 1;
    }
    assert(wv.take(w.len() as int) =~= wv);
    push_str(&mut out, "],\"system\":");
    let sys = system_prompt(ctx);
    let q = quote(sys.as_str());
    push_str(&mut out, q.as_str());
    push_str(&mut out, ",\"max_tokens\":");
    write_decimal(&mut out, max_tokens);
    push_str(&mut out, ",\"temperature\":");
    write_decimal(&mut out, temperature / 100);
    push_str(&mut out, ".");
    push_char(&mut out, digit_of((temperature / 10) % 10));
    push_char(&mut out, digit_of(temperature % 10));
    push_str(&mut out, ",\"tools\":[");
    let kinds = tools.kinds();
    let ghost head2 = out@;
    let mut j: usize = 0;
    while j < kinds.len()
        invariant
            j <= kinds.len(),
            kinds@ == tools.registered(),
            out@ == head2 + join(kinds@.take(j as int).map_values(|k: ToolKind| tool_json(k)), ","@),
        decreases kinds.len() - j,
    {
        let ghost parts = kinds@.take(j as int).map_values(|k: ToolKind| tool_json(k));
        if j > 0 {
            push_str(&mut out, ",");
        }
        write_tool(&mut out, kinds[j]);
        proof {
            let x = tool_json(kinds@[j as int]);
            lemma_join_push(parts, ","@, x);
            assert(kinds@.take(j as int + 1).map_values(|k: ToolKind| tool_json(k)) =~= parts.push(x));
        }
        j += 1;
    }
    assert(kinds@.take(kinds.len() as int) =~= kinds@);
    push_str(&mut out, "],\"tool_choice\":{\"type\":\"auto\"},\"anthropic_version\":\"bedrock-2023-05-31\"}");
    assert(out@ =~= request_json(ctx.log(), tools.registered(), max_tokens as nat, temperature as nat));
    out
}

fn digit_of(n: u64) -> (c: char)
    requires
        n < 10,
    ensures
        c == crate::json::digit(n as int),
{
    match n {
        0 => '0',
        1 => '1',
        2 => '2',
        3 => '3',
        4 => '4',
        5 => '5',
        6 => '6',
        7 => '7',
        8 => '8',
        _ => '9',
    }
}

} // verus!
