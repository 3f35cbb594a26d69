//! Session credentials: the session the proxy manages, its database row,
//! and storing or clearing it in the system keyring.

use vstd::prelude::*;
use crate::json::{
    json_object_of, entries_map, json_string_value, json_text, json_error_message, member_view,
    json_object, json_string, json_to_string, json_error_to_string, entry_keys_unique, members_of,
};
use crate::platform::{
    Platform, ProcessCommand, CommandView, command_view, commands_view, simple_command, pairs_view,
};
use crate::timefmt::{format_timestamp_rfc3339, rfc3339_text, MAX_RFC3339_TIMESTAMP};

verus! {

/// Expiry given to sessions that the proxy manages (2099-01-01T00:00:00Z).
pub const MANAGED_SESSION_EXPIRY: i64 = 4070908800;

/// A session to store: tokens, expiry, the proxy URL the tool talks to, and the tool.
pub struct SessionRequest {
    pub token: String,
    pub refresh_token: String,
    pub expiry: i64,
    pub proxy_url: String,
    pub ide_type: String,
}

/// The session that the proxy manages for a tool: the user's token, a
/// placeholder refresh token, a far expiry and the local proxy endpoint.
pub fn managed_session(token: &str, ide_type: &str) -> (res: SessionRequest)
    ensures
        res.token@ == token@,
        res.refresh_token@ == "proxy_managed_refresh_token"@,
        res.expiry == MANAGED_SESSION_EXPIRY,
        res.proxy_url@ == "http://127.0.0.1:8047/v1"@,
        res.ide_type@ == ide_type@,
{
    SessionRequest {
        token: String::from_str(token),
        refresh_token: String::from_str("proxy_managed_refresh_token"),
        expiry: MANAGED_SESSION_EXPIRY,
        proxy_url: String::from_str("http://127.0.0.1:8047/v1"),
        ide_type: String::from_str(ide_type),
    }
}

/// A row of the sessions table.
pub struct SessionRecord {
    pub id: String,
    pub token: String,
    pub refresh_token: String,
    pub expiry: i64,
    pub proxy_url: String,
    pub ide_type: String,
    pub created_at: i64,
}

/// The row that stores a session: keyed by the tool, so a tool has one session.
pub fn session_record(req: &SessionRequest, created_at: i64) -> (res: SessionRecord)
    ensures
        res.id@ == req.ide_type@,
        res.token@ == req.token@,
        res.refresh_token@ == req.refresh_token@,
        res.expiry == req.expiry,
        res.proxy_url@ == req.proxy_url@,
        res.ide_type@ == req.ide_type@,
        res.created_at == created_at,
{
    SessionRecord {
        id: req.ide_type.clone(),
        token: req.token.clone(),
        refresh_token: req.refresh_token.clone(),
        expiry: req.expiry,
        proxy_url: req.proxy_url.clone(),
        ide_type: req.ide_type.clone(),
        created_at,
    }
}

/// The JSON document stored in the keyring for a session.
pub open spec fn keyring_payload_value(access_token: Seq<char>, refresh_token: Seq<char>, expiry: Seq<char>) -> serde_json::Value {
    json_object_of(
        entries_map(
            seq![
                ("token"@, json_object_of(
                    entries_map(
                        seq![
                            ("access_token"@, json_string_value(access_token)),
                            ("token_type"@, json_string_value("Bearer"@)),
                            ("refresh_token"@, json_string_value(refresh_token)),
                            ("expiry"@, json_string_value(expiry)),
                        ],
                    ),
                )),
                ("auth_method"@, json_string_value("consumer"@)),
            ],
        ),
    )
}

fn member(key: &str, value: serde_json::Value) -> (res: (String, serde_json::Value))
    ensures
        member_view(res) == (key@, value),
{
    (String::from_str(key), value)
}

/// The keyring entry of a session, as compact JSON: the OAuth token (access
/// token, `Bearer`, refresh token, expiry in RFC 3339) and the auth method.
/// The JSON writer does not fail on a JSON value, so this always succeeds;
/// an error of the writer would be reported with its message.
pub fn keyring_payload(access_token: &str, refresh_token: &str, expiry: i64) -> (res: Result<String, String>)
    requires
        0 <= expiry <= MAX_RFC3339_TIMESTAMP,
    ensures
        res is Ok,
        res matches Ok(s) ==> s@ == json_text(
            keyring_payload_value(access_token@, refresh_token@, rfc3339_text(expiry as int)),
        ),
        res matches Err(e) ==> exists|x: serde_json::Error|
            e@ == "Failed to serialize keyring JSON: "@ + json_error_message(x),
{
    let expiry_text = format_timestamp_rfc3339(expiry);
    let token_members = vec![
        member("access_token", json_string(access_token)),
        member("token_type", json_string("Bearer")),
        member("refresh_token", json_string(refresh_token)),
        member("expiry", json_string(expiry_text.as_str())),
    ];
    assert(token_members@.map_values(|p: (String, serde_json::Value)| member_view(p)) =~= seq![
        ("access_token"@, json_string_value(access_token@)),
        ("token_type"@, json_string_value("Bearer"@)),
        ("refresh_token"@, json_string_value(refresh_token@)),
        ("expiry"@, json_string_value(expiry_text@)),
    ]);
    proof {
        reveal_strlit("access_token");
        reveal_strlit("token_type");
        reveal_strlit("refresh_token");
        reveal_strlit("expiry");
        let m = members_of(token_members@);
        assert(m =~= seq![
            ("access_token"@, json_string_value(access_token@)),
            ("token_type"@, json_string_value("Bearer"@)),
            ("refresh_token"@, json_string_value(refresh_token@)),
            ("expiry"@, json_string_value(expiry_text@)),
        ]);
        assert(m[0].0.len() == 12 && m[1].0.len() == 10 && m[2].0.len() == 13 && m[3].0.len() == 6);
        assert(entry_keys_unique(m));
    }
    let token = json_object(token_members);
    let members = vec![member("token", token), member("auth_method", json_string("consumer"))];
    assert(members@.map_values(|p: (String, serde_json::Value)| member_view(p)) =~= seq![
        ("token"@, json_object_of(
            entries_map(
                seq![
                    ("access_token"@, json_string_value(access_token@)),
                    ("token_type"@, json_string_value("Bearer"@)),
                    ("refresh_token"@, json_string_value(refresh_token@)),
                    ("expiry"@, json_string_value(expiry_text@)),
                ],
            ),
        )),
        ("auth_method"@, json_string_value("consumer"@)),
    ]);
    proof {
        reveal_strlit("token");
        reveal_strlit("auth_method");
        let m = members_of(members@);
        assert(m.len() == 2 && m[0].0 == "token"@ && m[1].0 == "auth_method"@);
        assert(m[0].0.len() == 5 && m[1].0.len() == 11);
        assert(entry_keys_unique(m));
    }
    let payload = json_object(members);
    match json_to_string(&payload) {
        Ok(s) => Ok(s),
        Err(e) => Err(String::from_str("Failed to serialize keyring JSON: ").concat(json_error_to_string(&e).as_str())),
    }
}

/// The D-Bus session bus address: the session's own, else the per-user
/// socket of user `uid` (user 1000 where that is unknown too).
pub open spec fn dbus_address(session_bus: Option<Seq<char>>, uid: Option<Seq<char>>) -> Seq<char> {
    match session_bus {
        Some(a) => a,
        None => "unix:path=/run/user/"@ + (match uid {
            Some(u) => u,
            None => "1000"@,
        }) + "/bus"@,
    }
}

/// Executable counterpart of [`dbus_address`], from the two environment variables.
pub fn dbus_session_address(session_bus: Option<&str>, uid: Option<&str>) -> (res: String)
    ensures
        res@ == dbus_address(match session_bus {
            Some(a) => Some(a@),
            None => None,
        }, match uid {
            Some(u) => Some(u@),
            None => None,
        }),
{
    match session_bus {
        Some(a) => String::from_str(a),
        None => {
            let u = match uid {
                Some(u) => u,
                None => "1000",
            };
            String::from_str("unix:path=/run/user/").concat(u).concat("/bus")
        },
    }
}

/// Commands that store or clear keyring entries: some whose outcome is
/// ignored, run first, and at most one whose failure is an error.
pub struct KeyringCommands {
    pub best_effort: Vec<ProcessCommand>,
    pub checked: Option<ProcessCommand>,
}

/// The `secret-tool` lookup attributes of the entry.
pub open spec fn secret_attributes() -> Seq<Seq<char>> {
    seq!["service"@, "gemini"@, "username"@, "antigravity"@]
}

/// `secret-tool clear` of the entry, on the session bus `dbus`.
pub open spec fn secret_clear(dbus: Seq<char>) -> CommandView {
    CommandView {
        program: "secret-tool"@,
        args: seq!["clear"@] + secret_attributes(),
        env: seq![("DBUS_SESSION_BUS_ADDRESS"@, dbus)],
        stdin: None,
    }
}

/// Deleting the entry with `cmdkey`.
pub open spec fn cmdkey_delete() -> CommandView {
    command_view("cmdkey.exe"@, seq!["/delete:gemini:antigravity"@])
}

/// Deleting the entry with `security`.
pub open spec fn security_delete() -> CommandView {
    command_view("security"@, seq!["delete-generic-password"@, "-s"@, "gemini"@, "-a"@, "antigravity"@])
}

/// How a keyring entry holding `payload` is stored on each platform: the old
/// entry is removed first; on Linux `secret-tool store` reads the payload
/// from its input and must succeed.
pub open spec fn keyring_store_plan(platform: Platform, payload: Seq<char>, dbus: Seq<char>) -> (Seq<CommandView>, Option<CommandView>) {
    match platform {
        Platform::Linux => (seq![secret_clear(dbus)], Some(CommandView {
            program: "secret-tool"@,
            args: seq!["store"@, "--label=gemini"@] + secret_attributes(),
            env: seq![("DBUS_SESSION_BUS_ADDRESS"@, dbus)],
            stdin: Some(payload),
        })),
        Platform::Windows => (seq![
            cmdkey_delete(),
            command_view("cmdkey.exe"@, seq!["/generic:gemini:antigravity"@, "/user:antigravity"@, "/pass:"@ + payload]),
        ], None),
        Platform::MacOs => (seq![
            security_delete(),
            command_view(
                "security"@,
                seq!["add-generic-password"@, "-s"@, "gemini"@, "-a"@, "antigravity"@, "-w"@, payload, "-U"@],
            ),
        ], None),
    }
}

fn secret_tool(args: &[&str], dbus: &str, stdin: Option<&str>) -> (res: ProcessCommand)
    ensures
        res@ == (CommandView {
            program: "secret-tool"@,
            args: args@.map_values(|s: &str| s@),
            env: seq![("DBUS_SESSION_BUS_ADDRESS"@, dbus@)],
            stdin: match stdin {
                Some(s) => Some(s@),
                None => None,
            },
        }),
{
    let base = simple_command("secret-tool", args);
    let res = ProcessCommand {
        program: base.program,
        args: base.args,
        env: vec![(String::from_str("DBUS_SESSION_BUS_ADDRESS"), String::from_str(dbus))],
        stdin: match stdin {
            Some(s) => Some(String::from_str(s)),
            None => None,
        },
    };
    assert(pairs_view(res.env@) =~= seq![("DBUS_SESSION_BUS_ADDRESS"@, dbus@)]);
    res
}

/// Plans storing the keyring entry `payload` (see [`keyring_store_plan`]);
/// `dbus` is the session bus address, used on Linux.
pub fn keyring_store_commands(platform: Platform, payload: &str, dbus: &str) -> (res: KeyringCommands)
    ensures
        commands_view(res.best_effort@) == keyring_store_plan(platform, payload@, dbus@).0,
        match keyring_store_plan(platform, payload@, dbus@).1 {
            Some(c) => res.checked matches Some(k) && k@ == c,
            None => res.checked is None,
        },
{
    match platform {
        Platform::Linux => {
            let clear = secret_tool(&["clear", "service", "gemini", "username", "antigravity"], dbus, None);
            let store = secret_tool(
                &["store", "--label=gemini", "service", "gemini", "username", "antigravity"],
                dbus,
                Some(payload),
            );
            let res = KeyringCommands { best_effort: vec![clear], checked: Some(store) };
            proof {
                assert(store@.args =~= seq!["store"@, "--label=gemini"@] + secret_attributes());
                assert(clear@.args =~= seq!["clear"@] + secret_attributes());
                assert(commands_view(res.best_effort@) =~= keyring_store_plan(platform, payload@, dbus@).0);
            }
            res
        },
        Platform::Windows => {
            let pass = String::from_str("/pass:").concat(payload);
            let p = pass.as_str();
            let del = simple_command("cmdkey.exe", &["/delete:gemini:antigravity"]);
            let add = simple_command("cmdkey.exe", &["/generic:gemini:antigravity", "/user:antigravity", p]);
            let res = KeyringCommands { best_effort: vec![del, add], checked: None };
            proof {
                assert(del@.args =~= seq!["/delete:gemini:antigravity"@]);
                assert(add@.args =~= seq!["/generic:gemini:antigravity"@, "/user:antigravity"@, p@]);
                assert(commands_view(res.best_effort@) =~= keyring_store_plan(platform, payload@, dbus@).0);
            }
            res
        },
        Platform::MacOs => {
            let del = simple_command("security", &["delete-generic-password", "-s", "gemini", "-a", "antigravity"]);
            let add = simple_command(
                "security",
                &["add-generic-password", "-s", "gemini", "-a", "antigravity", "-w", payload, "-U"],
            );
            let res = KeyringCommands { best_effort: vec![del, add], checked: None };
            proof {
                assert(del@.args =~= seq!["delete-generic-password"@, "-s"@, "gemini"@, "-a"@, "antigravity"@]);
                assert(add@.args =~= seq!["add-generic-password"@, "-s"@, "gemini"@, "-a"@, "antigravity"@, "-w"@, payload@, "-U"@]);
                assert(commands_view(res.best_effort@) =~= keyring_store_plan(platform, payload@, dbus@).0);
            }
            res
        },
    }
}

/// The command that removes the keyring entry on each platform (its outcome is ignored).
pub open spec fn keyring_clear_plan(platform: Platform, dbus: Seq<char>) -> CommandView {
    match platform {
        Platform::Linux => secret_clear(dbus),
        Platform::Windows => cmdkey_delete(),
        Platform::MacOs => security_delete(),
    }
}

/// Clearing removes exactly the entry that storing writes, and storing first
/// clears the old entry: on Linux `secret-tool clear` looks the entry up by
/// the attributes `secret-tool store` gives it (service `gemini`, username
/// `antigravity`) on the same session bus; on Windows and macOS the entry
/// deleted is the `gemini` / `antigravity` one that is written.
pub proof fn law_keyring_clear_matches_store(platform: Platform, payload: Seq<char>, dbus: Seq<char>)
    ensures
        keyring_store_plan(platform, payload, dbus).0[0] == keyring_clear_plan(platform, dbus),
        platform == Platform::Linux ==> ({
            let store = keyring_store_plan(platform, payload, dbus).1->0;
            let clear = keyring_clear_plan(platform, dbus);
            &&& clear.program == store.program
            &&& clear.env == store.env
            &&& clear.args == seq!["clear"@] + store.args.subrange(2, store.args.len() as int)
            &&& clear.args == seq!["clear"@, "service"@, "gemini"@, "username"@, "antigravity"@]
        }),
        platform == Platform::Windows ==> keyring_clear_plan(platform, dbus).args == seq![
            "/delete:gemini:antigravity"@,
        ] && keyring_store_plan(platform, payload, dbus).0[1].args[0] == "/generic:gemini:antigravity"@,
        platform == Platform::MacOs ==> keyring_clear_plan(platform, dbus).args.subrange(1, 5)
            == keyring_store_plan(platform, payload, dbus).0[1].args.subrange(1, 5),
{
    match platform {
        Platform::Linux => {
            let store = keyring_store_plan(platform, payload, dbus).1->0;
            assert(store.args.subrange(2, store.args.len() as int) =~= secret_attributes());
            assert(keyring_clear_plan(platform, dbus).args =~= seq![
                "clear"@,
                "service"@,
                "gemini"@,
                "username"@,
                "antigravity"@,
            ]);
        },
        Platform::MacOs => {
            assert(keyring_clear_plan(platform, dbus).args.subrange(1, 5) =~= keyring_store_plan(
                platform,
                payload,
                dbus,
            ).0[1].args.subrange(1, 5));
        },
        Platform::Windows => {},
    }
}

/// Plans removing the keyring entry; `dbus` is the session bus address, used on Linux.
pub fn clear_keyring_credentials(platform: Platform, dbus: &str) -> (res: ProcessCommand)
    ensures
        res@ == keyring_clear_plan(platform, dbus@),
{
    match platform {
        Platform::Linux => {
            let res = secret_tool(&["clear", "service", "gemini", "username", "antigravity"], dbus, None);
            assert(res@.args =~= seq!["clear"@] + secret_attributes());
            res
        },
        Platform::Windows => {
            let res = simple_command("cmdkey.exe", &["/delete:gemini:antigravity"]);
            assert(res@.args =~= seq!["/delete:gemini:antigravity"@]);
            res
        },
        Platform::MacOs => {
            let res = simple_command("security", &["delete-generic-password", "-s", "gemini", "-a", "antigravity"]);
            assert(res@.args =~= seq!["delete-generic-password"@, "-s"@, "gemini"@, "-a"@, "antigravity"@]);
            res
        },
    }
}

/// A step of storing the entry with `secret-tool` that can fail.
pub enum SecretToolStage {
    Spawn,
    WriteInput,
    Wait,
    ExitStatus,
}

/// The error reported when storing with `secret-tool` fails at `stage`;
/// `detail` is the failure's text (unused for the exit status).
pub fn secret_tool_failure(stage: SecretToolStage, detail: &str) -> (res: String)
    ensures
        res@ == match stage {
            SecretToolStage::Spawn => "Failed to spawn secret-tool: "@ + detail@,
            SecretToolStage::WriteInput => "Failed to write to secret-tool: "@ + detail@,
            SecretToolStage::Wait => "Failed to wait for secret-tool: "@ + detail@,
            SecretToolStage::ExitStatus => "secret-tool execution returned non-zero status"@,
        },
{
    match stage {
        SecretToolStage::Spawn => String::from_str("Failed to spawn secret-tool: ").concat(detail),
        SecretToolStage::WriteInput => String::from_str("Failed to write to secret-tool: ").concat(detail),
        SecretToolStage::Wait => String::from_str("Failed to wait for secret-tool: ").concat(detail),
        SecretToolStage::ExitStatus => String::from_str("secret-tool execution returned non-zero status"),
    }
}

} // verus!
