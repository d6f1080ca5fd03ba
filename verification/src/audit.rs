//! The audit log's content: the message of each audited event, the line a
//! message is written as, the fields of each event in JSON telemetry, and
//! the hash that stands for a recipient list.  Writing the log (and adding
//! the time stamp to an event) is the caller's.
use vstd::prelude::*;
use crate::digest::md5_hex;
use crate::order::sort_strings;
use crate::requests::group_hash_spec;
use crate::text::{dec_digits, join, owned, u64_to_string, views};

verus! {

/// How audit events are written.
#[derive(PartialEq, Eq, Structural, Clone, Copy, Debug)]
pub enum TelemetryFormat {
    /// One line of text per event.
    Text,
    /// One JSON object per event.
    Json,
}

impl TelemetryFormat {
    /// Text.
    pub fn default() -> (f: Self)
        ensures
            f == TelemetryFormat::Text,
    {
        TelemetryFormat::Text
    }
}

/// The level and message of an audited event.
#[derive(Debug, Clone)]
pub struct AuditEntry {
    pub level: &'static str,
    pub message: String,
}

/// The value of a field of a JSON audit event.
#[derive(Debug, Clone)]
pub enum EventValue {
    Text(String),
    Count(u64),
    Flag(bool),
    Texts(Vec<String>),
    Null,
}

/// A field value as plain values.
pub enum FieldValue {
    Text(Seq<char>),
    Count(u64),
    Flag(bool),
    Texts(Seq<Seq<char>>),
    Null,
}

impl EventValue {
    pub open spec fn model(self) -> FieldValue {
        match self {
            EventValue::Text(s) => FieldValue::Text(s@),
            EventValue::Count(n) => FieldValue::Count(n),
            EventValue::Flag(b) => FieldValue::Flag(b),
            EventValue::Texts(v) => FieldValue::Texts(views(v@)),
            EventValue::Null => FieldValue::Null,
        }
    }
}

/// The fields of an event as plain values.
pub open spec fn fields_model(v: Seq<(String, EventValue)>) -> Seq<(Seq<char>, FieldValue)> {
    v.map_values(|f: (String, EventValue)| (f.0@, f.1.model()))
}

/// An audit event in JSON telemetry: its level and its fields in order.  A
/// writer adds the time stamp, the level and the logger's component.
#[derive(Debug, Clone)]
pub struct AuditEvent {
    pub level: &'static str,
    pub fields: Vec<(String, EventValue)>,
}

/// A copy of a field value.
fn copy_value(v: &EventValue) -> (r: EventValue)
    ensures
        r.model() == v.model(),
{
    match v {
        EventValue::Text(s) => EventValue::Text(s.clone()),
        EventValue::Count(n) => EventValue::Count(*n),
        EventValue::Flag(b) => EventValue::Flag(*b),
        EventValue::Texts(t) => EventValue::Texts(crate::text::clone_strings(t)),
        EventValue::Null => EventValue::Null,
    }
}

/// A text field.
fn text_field(name: &str, value: &str) -> (r: (String, EventValue))
    ensures
        r.0@ == name@,
        r.1.model() == FieldValue::Text(value@),
{
    (owned(name), EventValue::Text(owned(value)))
}

/// A field of another value.
fn value_field(name: &str, value: EventValue) -> (r: (String, EventValue))
    ensures
        r.0@ == name@,
        r.1 == value,
{
    (owned(name), value)
}

/// The hash standing for a recipient list, which hides the recipients: the
/// MD5 digest (hex) of the recipients sorted and joined by commas, as for a
/// recipient group.
pub fn recipient_hash(recipients: &Vec<String>) -> (r: String)
    ensures
        r@ == group_hash_spec(views(recipients@)),
{
    let sorted = sort_strings(recipients);
    let joined = join(&sorted, ",");
    md5_hex(joined.as_str())
}

/// `a`, `b`, `c`, `d` and `e` in one string.
fn cat5(a: &str, b: &str, c: &str, d: &str, e: &str) -> (r: String)
    ensures
        r@ == a@ + b@ + c@ + d@ + e@,
{
    let mut s = owned(a);
    s.append(b);
    s.append(c);
    s.append(d);
    s.append(e);
    s
}

/// Builds audit entries for a component.
#[derive(Debug)]
pub struct AuditLogger {
    component: String,
    telemetry_format: TelemetryFormat,
}

impl AuditLogger {
    pub closed spec fn spec_component(&self) -> Seq<char> {
        self.component@
    }

    pub closed spec fn spec_format(&self) -> TelemetryFormat {
        self.telemetry_format
    }

    /// A logger for the `cage_automation` component, writing text.
    pub fn new() -> (l: Self)
        ensures
            l.spec_component() == "cage_automation"@,
            l.spec_format() == TelemetryFormat::Text,
    {
        AuditLogger { component: owned("cage_automation"), telemetry_format: TelemetryFormat::Text }
    }

    /// A logger for the `cage_automation` component writing in `format`.
    pub fn with_format(format: TelemetryFormat) -> (l: Self)
        ensures
            l.spec_component() == "cage_automation"@,
            l.spec_format() == format,
    {
        AuditLogger { component: owned("cage_automation"), telemetry_format: format }
    }

    /// The component name.
    pub fn component(&self) -> (r: &str)
        ensures
            r@ == self.spec_component(),
    {
        self.component.as_str()
    }

    /// The format entries are written in.
    pub fn telemetry_format(&self) -> (r: TelemetryFormat)
        ensures
            r == self.spec_format(),
    {
        self.telemetry_format
    }

    /// The text line of an entry written at `timestamp`:
    /// `[<timestamp>] [<level>] [<component>] <message>` and a line feed.
    pub fn text_line(&self, timestamp: &str, entry: &AuditEntry) -> (r: String)
        ensures
            r@ == "["@ + timestamp@ + "] ["@ + entry.level@ + "] ["@ + self.spec_component() + "] "@
                + entry.message@ + "\n"@,
    {
        let mut s = cat5("[", timestamp, "] [", entry.level, "] [");
        s.append(self.component.as_str());
        s.append("] ");
        s.append(entry.message.as_str());
        s.append("\n");
        s
    }

    /// The start of an operation from `input` to `output`.
    pub fn log_operation_start(&self, operation: &str, input: &str, output: &str) -> (e: AuditEntry)
        ensures
            e.level@ == "INFO"@,
            e.message@ == "OPERATION_START "@ + operation@ + " "@ + input@ + " -> "@ + output@,
    {
        let mut m = cat5("OPERATION_START ", operation, " ", input, " -> ");
        m.append(output);
        AuditEntry { level: "INFO", message: m }
    }

    /// The success of an operation from `input` to `output`.
    pub fn log_operation_success(&self, operation: &str, input: &str, output: &str) -> (e: AuditEntry)
        ensures
            e.level@ == "INFO"@,
            e.message@ == "OPERATION_SUCCESS "@ + operation@ + " "@ + input@ + " -> "@ + output@,
    {
        let mut m = cat5("OPERATION_SUCCESS ", operation, " ", input, " -> ");
        m.append(output);
        AuditEntry { level: "INFO", message: m }
    }

    /// The failure of an operation from `input` to `output` with the error's
    /// message.
    pub fn log_operation_failure(&self, operation: &str, input: &str, output: &str, error: &str) -> (e: AuditEntry)
        ensures
            e.level@ == "ERROR"@,
            e.message@ == "OPERATION_FAILURE "@ + operation@ + " "@ + input@ + " -> "@ + output@ + " ERROR: "@
                + error@,
    {
        let mut m = cat5("OPERATION_FAILURE ", operation, " ", input, " -> ");
        m.append(output);
        m.append(" ERROR: ");
        m.append(error);
        AuditEntry { level: "ERROR", message: m }
    }

    /// A health check's result.
    pub fn log_health_check(&self, status: &str) -> (e: AuditEntry)
        ensures
            e.level@ == "INFO"@,
            e.message@ == "HEALTH_CHECK "@ + status@,
    {
        let mut m = owned("HEALTH_CHECK ");
        m.append(status);
        AuditEntry { level: "INFO", message: m }
    }

    /// A message at level `INFO`.
    pub fn log_info(&self, message: &str) -> (e: AuditEntry)
        ensures
            e.level@ == "INFO"@,
            e.message@ == message@,
    {
        AuditEntry { level: "INFO", message: owned(message) }
    }

    /// A message at level `WARN`.
    pub fn log_warning(&self, message: &str) -> (e: AuditEntry)
        ensures
            e.level@ == "WARN"@,
            e.message@ == message@,
    {
        AuditEntry { level: "WARN", message: owned(message) }
    }

    /// A message at level `ERROR`.
    pub fn log_error(&self, message: &str) -> (e: AuditEntry)
        ensures
            e.level@ == "ERROR"@,
            e.message@ == message@,
    {
        AuditEntry { level: "ERROR", message: owned(message) }
    }

    /// The start of an operation on one path.
    pub fn log_operation_start_single(&self, operation: &str, path: &str) -> (e: AuditEntry)
        ensures
            e.level@ == "INFO"@,
            e.message@ == "OPERATION_START "@ + operation@ + " "@ + path@,
    {
        let m = cat5("OPERATION_START ", operation, " ", path, "");
        proof {
            reveal_strlit("");
            assert(""@ =~= Seq::<char>::empty());
        }
        AuditEntry { level: "INFO", message: m }
    }

    /// The completion of an operation on a path with its counts.
    pub fn log_operation_complete(
        &self,
        operation: &str,
        path: &str,
        processed: usize,
        failed: usize,
        duration_ms: u64,
    ) -> (e: AuditEntry)
        ensures
            e.level@ == "INFO"@,
            e.message@ == "OPERATION_COMPLETE "@ + operation@ + " "@ + path@ + " - processed: "@ + dec_digits(
                processed as nat,
            ) + ", failed: "@ + dec_digits(failed as nat) + ", duration: "@ + dec_digits(duration_ms as nat)
                + "ms"@,
    {
        let mut m = cat5("OPERATION_COMPLETE ", operation, " ", path, " - processed: ");
        m.append(u64_to_string(processed as u64).as_str());
        m.append(", failed: ");
        m.append(u64_to_string(failed as u64).as_str());
        m.append(", duration: ");
        m.append(u64_to_string(duration_ms).as_str());
        m.append("ms");
        AuditEntry { level: "INFO", message: m }
    }

    /// A status check of a path with its counts.
    pub fn log_status_check(&self, path: &str, total: usize, encrypted: usize, unencrypted: usize) -> (e: AuditEntry)
        ensures
            e.level@ == "INFO"@,
            e.message@ == "STATUS_CHECK "@ + path@ + " - total: "@ + dec_digits(total as nat) + ", encrypted: "@
                + dec_digits(encrypted as nat) + ", unencrypted: "@ + dec_digits(unencrypted as nat),
    {
        let mut m = cat5("STATUS_CHECK ", path, " - total: ", "", "");
        proof {
            reveal_strlit("");
            assert(""@ =~= Seq::<char>::empty());
        }
        m.append(u64_to_string(total as u64).as_str());
        m.append(", encrypted: ");
        m.append(u64_to_string(encrypted as u64).as_str());
        m.append(", unencrypted: ");
        m.append(u64_to_string(unencrypted as u64).as_str());
        AuditEntry { level: "INFO", message: m }
    }

    /// An operation on the authority chain for a recipient.
    pub fn log_authority_operation(&self, operation: &str, recipient: &str) -> (e: AuditEntry)
        ensures
            e.level@ == "INFO"@,
            e.message@ == "AUTHORITY_OPERATION "@ + operation@ + " recipient: "@ + recipient@,
    {
        let m = cat5("AUTHORITY_OPERATION ", operation, " recipient: ", recipient, "");
        proof {
            reveal_strlit("");
            assert(""@ =~= Seq::<char>::empty());
        }
        AuditEntry { level: "INFO", message: m }
    }

    /// An encryption of a path: with the identity type, the number of
    /// recipients and, where given, the streaming strategy and authority tier
    /// when it succeeded; the identity type alone when it failed.
    pub fn log_encryption_event_extended(
        &self,
        path: &str,
        recipient_count: usize,
        identity_type: &str,
        success: bool,
        streaming_strategy: Option<&str>,
        authority_tier: Option<&str>,
    ) -> (e: AuditEntry)
        ensures
            e.level@ == "INFO"@,
            success ==> e.message@ == "ENCRYPTION "@ + path@ + " identity:"@ + identity_type@ + " recipients:"@
                + dec_digits(recipient_count as nat) + " "@ + (match streaming_strategy {
                Some(s) => "strategy:"@ + s@ + " "@,
                None => Seq::<char>::empty(),
            }) + (match authority_tier {
                Some(t) => "tier:"@ + t@,
                None => Seq::<char>::empty(),
            }),
            !success ==> e.message@ == "ENCRYPTION_FAILED "@ + path@ + " identity:"@ + identity_type@,
    {
        if success {
            let mut m = cat5("ENCRYPTION ", path, " identity:", identity_type, " recipients:");
            m.append(u64_to_string(recipient_count as u64).as_str());
            m.append(" ");
            if let Some(s) = streaming_strategy {
                m.append("strategy:");
                m.append(s);
                m.append(" ");
            }
            if let Some(t) = authority_tier {
                m.append("tier:");
                m.append(t);
            }
            AuditEntry { level: "INFO", message: m }
        } else {
            let m = cat5("ENCRYPTION_FAILED ", path, " identity:", identity_type, "");
            proof {
                reveal_strlit("");
                assert(""@ =~= Seq::<char>::empty());
            }
            AuditEntry { level: "INFO", message: m }
        }
    }

    /// An encryption without streaming strategy or tier.
    pub fn log_encryption_event(&self, path: &str, recipient_count: usize, identity_type: &str, success: bool) -> (e: AuditEntry)
        ensures
            e.level@ == "INFO"@,
            success ==> e.message@ == "ENCRYPTION "@ + path@ + " identity:"@ + identity_type@ + " recipients:"@
                + dec_digits(recipient_count as nat) + " "@,
            !success ==> e.message@ == "ENCRYPTION_FAILED "@ + path@ + " identity:"@ + identity_type@,
    {
        let e = self.log_encryption_event_extended(path, recipient_count, identity_type, success, None, None);
        assert(success ==> e.message@ =~= "ENCRYPTION "@ + path@ + " identity:"@ + identity_type@ + " recipients:"@
            + dec_digits(recipient_count as nat) + " "@);
        e
    }

    /// A decryption of a path: with the identity type and, where given, the
    /// streaming strategy when it succeeded; the identity type alone when it
    /// failed.
    pub fn log_decryption_event_extended(
        &self,
        path: &str,
        identity_type: &str,
        success: bool,
        streaming_strategy: Option<&str>,
    ) -> (e: AuditEntry)
        ensures
            e.level@ == "INFO"@,
            success ==> e.message@ == "DECRYPTION "@ + path@ + " identity:"@ + identity_type@ + " "@ + (match streaming_strategy {
                Some(s) => "strategy:"@ + s@,
                None => Seq::<char>::empty(),
            }),
            !success ==> e.message@ == "DECRYPTION_FAILED "@ + path@ + " identity:"@ + identity_type@,
    {
        proof {
            reveal_strlit("");
            assert(""@ =~= Seq::<char>::empty());
        }
        if success {
            let mut m = cat5("DECRYPTION ", path, " identity:", identity_type, " ");
            if let Some(s) = streaming_strategy {
                m.append("strategy:");
                m.append(s);
            }
            AuditEntry { level: "INFO", message: m }
        } else {
            let m = cat5("DECRYPTION_FAILED ", path, " identity:", identity_type, "");
            AuditEntry { level: "INFO", message: m }
        }
    }

    /// A decryption without streaming strategy.
    pub fn log_decryption_event(&self, path: &str, identity_type: &str, success: bool) -> (e: AuditEntry)
        ensures
            e.level@ == "INFO"@,
            success ==> e.message@ == "DECRYPTION "@ + path@ + " identity:"@ + identity_type@ + " "@,
            !success ==> e.message@ == "DECRYPTION_FAILED "@ + path@ + " identity:"@ + identity_type@,
    {
        let e = self.log_decryption_event_extended(path, identity_type, success, None);
        assert(success ==> e.message@ =~= "DECRYPTION "@ + path@ + " identity:"@ + identity_type@ + " "@);
        e
    }

    /// An emergency operation on a path.
    pub fn log_emergency_operation(&self, operation: &str, path: &str) -> (e: AuditEntry)
        ensures
            e.level@ == "WARN"@,
            e.message@ == "EMERGENCY_OPERATION "@ + operation@ + " "@ + path@,
    {
        let m = cat5("EMERGENCY_OPERATION ", operation, " ", path, "");
        proof {
            reveal_strlit("");
            assert(""@ =~= Seq::<char>::empty());
        }
        AuditEntry { level: "WARN", message: m }
    }

    /// The text line of an entry written `secs` seconds after the Unix
    /// epoch, stamped with that UTC date and time (blank where it has none).
    pub fn text_line_at(&self, secs: i64, entry: &AuditEntry) -> (r: String)
        ensures
            r@ == "["@ + (match crate::clock_text::utc_text(secs) {
                Some(t) => t,
                None => Seq::<char>::empty(),
            }) + "] ["@ + entry.level@ + "] ["@ + self.spec_component() + "] "@ + entry.message@ + "\n"@,
    {
        let stamp = match crate::clock_text::utc_timestamp_text(secs) {
            Some(t) => t,
            None => String::new(),
        };
        self.text_line(stamp.as_str(), entry)
    }

    /// The fields a JSON event is written with, `secs` seconds and `nanos`
    /// nanoseconds after the Unix epoch: its own, then the time stamp
    /// (RFC 3339, null where there is no date for it), the level and the
    /// component.
    pub fn json_record(&self, event: &AuditEvent, secs: i64, nanos: u32) -> (r: Vec<(String, EventValue)>)
        ensures
            fields_model(r@) == fields_model(event.fields@) + seq![
                ("timestamp"@, match crate::clock_text::utc_rfc3339(secs, nanos) {
                    Some(t) => FieldValue::Text(t),
                    None => FieldValue::Null,
                }),
                ("level"@, FieldValue::Text(event.level@)),
                ("component"@, FieldValue::Text(self.spec_component())),
            ],
    {
        let mut r: Vec<(String, EventValue)> = Vec::new();
        let mut i: usize = 0;
        while i < event.fields.len()
            invariant
                i <= event.fields.len(),
                fields_model(r@) == fields_model(event.fields@).take(i as int),
            decreases event.fields.len() - i,
        {
            let ghost before = r@;
            let name = event.fields[i].0.clone();
            let value = copy_value(&event.fields[i].1);
            r.push((name, value));
            assert(fields_model(r@) =~= fields_model(before).push((name@, value.model())));
            assert(fields_model(r@) =~= fields_model(event.fields@).take(i + 1));
            i = i + 1;
        }
        assert(fields_model(event.fields@).take(event.fields.len() as int) =~= fields_model(event.fields@));
        let ghost own = fields_model(r@);
        let stamp = match crate::clock_text::utc_rfc3339_text(secs, nanos) {
            Some(t) => EventValue::Text(t),
            None => EventValue::Null,
        };
        r.push(value_field("timestamp", stamp));
        r.push(text_field("level", event.level));
        r.push(text_field("component", self.component.as_str()));
        assert(fields_model(r@) =~= own + seq![
            ("timestamp"@, match crate::clock_text::utc_rfc3339(secs, nanos) {
                Some(t) => FieldValue::Text(t),
                None => FieldValue::Null,
            }),
            ("level"@, FieldValue::Text(event.level@)),
            ("component"@, FieldValue::Text(self.spec_component())),
        ]);
        r
    }

    /// A message in JSON telemetry: the entry's level, its message alone.
    pub fn json_message(&self, entry: &AuditEntry) -> (e: AuditEvent)
        ensures
            e.level@ == entry.level@,
            fields_model(e.fields@) == seq![("message"@, FieldValue::Text(entry.message@))],
    {
        let mut fields = Vec::new();
        fields.push(text_field("message", entry.message.as_str()));
        assert(fields_model(fields@) =~= seq![("message"@, FieldValue::Text(entry.message@))]);
        AuditEvent { level: entry.level, fields }
    }

    /// The start of an operation on one path in JSON telemetry.
    pub fn json_operation_start(&self, operation: &str, path: &str) -> (e: AuditEvent)
        ensures
            e.level@ == "INFO"@,
            fields_model(e.fields@) == seq![
                ("event_type"@, FieldValue::Text("operation_start"@)),
                ("operation"@, FieldValue::Text(operation@)),
                ("path"@, FieldValue::Text(path@)),
            ],
    {
        let mut fields = Vec::new();
        fields.push(text_field("event_type", "operation_start"));
        fields.push(text_field("operation", operation));
        fields.push(text_field("path", path));
        assert(fields_model(fields@) =~= seq![
            ("event_type"@, FieldValue::Text("operation_start"@)),
            ("operation"@, FieldValue::Text(operation@)),
            ("path"@, FieldValue::Text(path@)),
        ]);
        AuditEvent { level: "INFO", fields }
    }

    /// The completion of an operation on a path in JSON telemetry: the
    /// counts, the time taken and the files processed.
    pub fn json_operation_complete(
        &self,
        operation: &str,
        path: &str,
        processed_files: &Vec<String>,
        failed: usize,
        duration_ms: u64,
    ) -> (e: AuditEvent)
        ensures
            e.level@ == "INFO"@,
            fields_model(e.fields@) == seq![
                ("event_type"@, FieldValue::Text("operation_complete"@)),
                ("operation"@, FieldValue::Text(operation@)),
                ("path"@, FieldValue::Text(path@)),
                ("processed_count"@, FieldValue::Count(processed_files.len() as u64)),
                ("failed_count"@, FieldValue::Count(failed as u64)),
                ("execution_time_ms"@, FieldValue::Count(duration_ms)),
                ("processed_files"@, FieldValue::Texts(views(processed_files@))),
            ],
    {
        let mut fields = Vec::new();
        fields.push(text_field("event_type", "operation_complete"));
        fields.push(text_field("operation", operation));
        fields.push(text_field("path", path));
        fields.push(value_field("processed_count", EventValue::Count(processed_files.len() as u64)));
        fields.push(value_field("failed_count", EventValue::Count(failed as u64)));
        fields.push(value_field("execution_time_ms", EventValue::Count(duration_ms)));
        let files = crate::text::clone_strings(processed_files);
        fields.push(value_field("processed_files", EventValue::Texts(files)));
        assert(fields_model(fields@) =~= seq![
            ("event_type"@, FieldValue::Text("operation_complete"@)),
            ("operation"@, FieldValue::Text(operation@)),
            ("path"@, FieldValue::Text(path@)),
            ("processed_count"@, FieldValue::Count(processed_files.len() as u64)),
            ("failed_count"@, FieldValue::Count(failed as u64)),
            ("execution_time_ms"@, FieldValue::Count(duration_ms)),
            ("processed_files"@, FieldValue::Texts(views(processed_files@))),
        ]);
        AuditEvent { level: "INFO", fields }
    }

    /// A status check of a path in JSON telemetry.
    pub fn json_status_check(&self, path: &str, total: usize, encrypted: usize, unencrypted: usize) -> (e: AuditEvent)
        ensures
            e.level@ == "INFO"@,
            fields_model(e.fields@) == seq![
                ("event_type"@, FieldValue::Text("status_check"@)),
                ("path"@, FieldValue::Text(path@)),
                ("total_files"@, FieldValue::Count(total as u64)),
                ("encrypted_files"@, FieldValue::Count(encrypted as u64)),
                ("unencrypted_files"@, FieldValue::Count(unencrypted as u64)),
            ],
    {
        let mut fields = Vec::new();
        fields.push(text_field("event_type", "status_check"));
        fields.push(text_field("path", path));
        fields.push(value_field("total_files", EventValue::Count(total as u64)));
        fields.push(value_field("encrypted_files", EventValue::Count(encrypted as u64)));
        fields.push(value_field("unencrypted_files", EventValue::Count(unencrypted as u64)));
        assert(fields_model(fields@) =~= seq![
            ("event_type"@, FieldValue::Text("status_check"@)),
            ("path"@, FieldValue::Text(path@)),
            ("total_files"@, FieldValue::Count(total as u64)),
            ("encrypted_files"@, FieldValue::Count(encrypted as u64)),
            ("unencrypted_files"@, FieldValue::Count(unencrypted as u64)),
        ]);
        AuditEvent { level: "INFO", fields }
    }

    /// An operation on the authority chain in JSON telemetry: the recipient
    /// is hidden behind the MD5 digest (hex) of its text.
    pub fn json_authority_operation(&self, operation: &str, recipient: &str) -> (e: AuditEvent)
        ensures
            e.level@ == "INFO"@,
            fields_model(e.fields@) == seq![
                ("event_type"@, FieldValue::Text("authority_operation"@)),
                ("operation"@, FieldValue::Text(operation@)),
                ("recipient_hash"@, FieldValue::Text(crate::digest::hex_spec(crate::digest::md5_of_text(recipient@)))),
            ],
    {
        let mut fields = Vec::new();
        fields.push(text_field("event_type", "authority_operation"));
        fields.push(text_field("operation", operation));
        let h = md5_hex(recipient);
        fields.push(text_field("recipient_hash", h.as_str()));
        assert(fields_model(fields@) =~= seq![
            ("event_type"@, FieldValue::Text("authority_operation"@)),
            ("operation"@, FieldValue::Text(operation@)),
            ("recipient_hash"@, FieldValue::Text(crate::digest::hex_spec(crate::digest::md5_of_text(recipient@)))),
        ]);
        AuditEvent { level: "INFO", fields }
    }

    /// An encryption in JSON telemetry: the path, the identity type, the
    /// number of recipients, the hash of the recipients (null without
    /// recipients), the success, then the streaming strategy and the
    /// authority tier where given.
    pub fn json_encryption_event(
        &self,
        path: &str,
        recipients: Option<&Vec<String>>,
        identity_type: &str,
        success: bool,
        streaming_strategy: Option<&str>,
        authority_tier: Option<&str>,
    ) -> (e: AuditEvent)
        ensures
            e.level@ == "INFO"@,
            fields_model(e.fields@) == seq![
                ("event_type"@, FieldValue::Text("encryption"@)),
                ("path"@, FieldValue::Text(path@)),
                ("identity_type"@, FieldValue::Text(identity_type@)),
                ("recipient_count"@, FieldValue::Count(match recipients {
                    Some(r) => r.len() as u64,
                    None => 0,
                })),
                ("recipient_group_hash"@, match recipients {
                    Some(r) => FieldValue::Text(group_hash_spec(views(r@))),
                    None => FieldValue::Null,
                }),
                ("success"@, FieldValue::Flag(success)),
            ] + (match streaming_strategy {
                Some(s) => seq![("streaming_strategy"@, FieldValue::Text(s@))],
                None => Seq::empty(),
            }) + (match authority_tier {
                Some(t) => seq![("authority_tier"@, FieldValue::Text(t@))],
                None => Seq::empty(),
            }),
    {
        let mut fields = Vec::new();
        fields.push(text_field("event_type", "encryption"));
        fields.push(text_field("path", path));
        fields.push(text_field("identity_type", identity_type));
        let (count, hash) = match recipients {
            Some(r) => (r.len() as u64, EventValue::Text(recipient_hash(r))),
            None => (0u64, EventValue::Null),
        };
        fields.push(value_field("recipient_count", EventValue::Count(count)));
        fields.push(value_field("recipient_group_hash", hash));
        fields.push(value_field("success", EventValue::Flag(success)));
        let ghost base = fields_model(fields@);
        assert(base =~= seq![
            ("event_type"@, FieldValue::Text("encryption"@)),
            ("path"@, FieldValue::Text(path@)),
            ("identity_type"@, FieldValue::Text(identity_type@)),
            ("recipient_count"@, FieldValue::Count(match recipients {
                Some(r) => r.len() as u64,
                None => 0,
            })),
            ("recipient_group_hash"@, match recipients {
                Some(r) => FieldValue::Text(group_hash_spec(views(r@))),
                None => FieldValue::Null,
            }),
            ("success"@, FieldValue::Flag(success)),
        ]);
        let ghost with_strategy = base + (match streaming_strategy {
            Some(s) => seq![("streaming_strategy"@, FieldValue::Text(s@))],
            None => Seq::empty(),
        });
        if let Some(st) = streaming_strategy {
            fields.push(text_field("streaming_strategy", st));
        }
        assert(fields_model(fields@) =~= with_strategy);
        if let Some(t) = authority_tier {
            fields.push(text_field("authority_tier", t));
        }
        assert(fields_model(fields@) =~= with_strategy + (match authority_tier {
            Some(t) => seq![("authority_tier"@, FieldValue::Text(t@))],
            None => Seq::empty(),
        }));
        AuditEvent { level: "INFO", fields }
    }

    /// A decryption in JSON telemetry: the path, the identity type, the
    /// success, then the streaming strategy where given.
    pub fn json_decryption_event(
        &self,
        path: &str,
        identity_type: &str,
        success: bool,
        streaming_strategy: Option<&str>,
    ) -> (e: AuditEvent)
        ensures
            e.level@ == "INFO"@,
            fields_model(e.fields@) == seq![
                ("event_type"@, FieldValue::Text("decryption"@)),
                ("path"@, FieldValue::Text(path@)),
                ("identity_type"@, FieldValue::Text(identity_type@)),
                ("success"@, FieldValue::Flag(success)),
            ] + (match streaming_strategy {
                Some(s) => seq![("streaming_strategy"@, FieldValue::Text(s@))],
                None => Seq::empty(),
            }),
    {
        let mut fields = Vec::new();
        fields.push(text_field("event_type", "decryption"));
        fields.push(text_field("path", path));
        fields.push(text_field("identity_type", identity_type));
        fields.push(value_field("success", EventValue::Flag(success)));
        let ghost base = fields_model(fields@);
        assert(base =~= seq![
            ("event_type"@, FieldValue::Text("decryption"@)),
            ("path"@, FieldValue::Text(path@)),
            ("identity_type"@, FieldValue::Text(identity_type@)),
            ("success"@, FieldValue::Flag(success)),
        ]);
        if let Some(st) = streaming_strategy {
            fields.push(text_field("streaming_strategy", st));
        }
        assert(fields_model(fields@) =~= base + (match streaming_strategy {
            Some(s) => seq![("streaming_strategy"@, FieldValue::Text(s@))],
            None => Seq::empty(),
        }));
        AuditEvent { level: "INFO", fields }
    }
}

} // verus!
