//! Laws of the keybox: where it comes from, and how it gets to its place.
use crate::device::Device;
use crate::engine::{engine_of, keybox_file, Engine};
use crate::keybox::error::KeyboxFailure;
use crate::keybox::generate::{
    ec_key_pem, generated_install, indented, is_certificate_part, is_certificate_pem,
    is_fresh_certificate, is_fresh_keybox, is_fresh_rsa_key, is_generated, is_rsa_part, keybox_xml,
    modulus_bits, outcome_install, padded, rsa_key_pem, GenerateError, GeneratePlan, GenerateView,
    XML_CERTIFICATE, XML_EC_KEY, XML_END, XML_RSA_KEY,
};
use crate::keybox::install::{
    install_of, is_kept, known_digest, target_backup, BackupPlan, BackupView, InstallPlan,
    InstallView, KeyboxFiles,
};
use crate::keybox::report::{bad_keys, faults, long_line, rejection, short_line, KeyReport, Report};
use crate::keybox::{
    after, custom_install, device_backup, fetch_start, keybox_report, keybox_step, label_of,
    preferred_source, source_of, source_order, trying, CustomKeybox, FetchEvent, FetchStep,
    FetchView, KeyboxAction, KeyboxSource, KeyboxStepView, Origin,
};
use crate::laws::text::{law_first_line, law_joining, law_last_line};
use crate::text::{decimal, joined, lines_of, lowercase, spaces, texts};
use vstd::prelude::*;

verus! {

/// A keybox counts as installed already if and only if its digest is known and is that of
/// the file in its place. Any other keybox is written there, for its owner alone to read;
/// the file that is replaced is copied before, and a copy that is in the way is moved
/// before that.
pub proof fn law_installing(device: Device, digest: Seq<char>, files: KeyboxFiles)
    ensures
        match keybox_file(engine_of(device.modules), device) {
            Err(refusal) => install_of(device, digest, files) == Err::<
                InstallView,
                KeyboxFailure<Seq<char>>,
            >(KeyboxFailure::Engine { refusal }),
            Ok(path) => {
                let same = digest.len() > 0 && files.digest is Some && files.digest->0@ == digest;
                &&& install_of(device, digest, files) == Ok::<
                    InstallView,
                    KeyboxFailure<Seq<char>>,
                >(InstallView::Identical) <==> same
                &&& !same ==> match install_of(device, digest, files) {
                    Ok(InstallView::Write { target, backup, mode }) => {
                        &&& target == path
                        &&& mode == 0o600
                        &&& files.exists <==> backup is Some
                        &&& backup is Some ==> is_backup(backup->0, path, files.backup_exists)
                    },
                    _ => false,
                }
            },
        },
{
    lemma_backup(device, files);
    reveal_strlit(".bak");
    reveal_strlit(".1");
    reveal_strlit(".bak.1");
    if keybox_file(engine_of(device.modules), device) is Ok {
        let path = keybox_file(engine_of(device.modules), device)->Ok_0;
        assert(path + ".bak"@ + ".1"@ == path + ".bak.1"@);
    }
}

/// The keybox at `path` is copied beside itself, and the copy from before is kept once
/// more.
pub open spec fn is_backup(plan: BackupView, path: Seq<char>, copy_exists: bool) -> bool {
    &&& plan.target == path
    &&& plan.copy == path + ".bak"@
    &&& copy_exists ==> plan.rotated == Some(path + ".bak.1"@)
    &&& !copy_exists ==> plan.rotated is None
}

proof fn lemma_backup(device: Device, files: KeyboxFiles)
    ensures
        device_backup(device, files) matches Ok(plan) ==> (keybox_file(
            engine_of(device.modules),
            device,
        ) matches Ok(path) ==> is_backup(plan, path, files.backup_exists)),
{
    reveal_strlit(".bak");
    reveal_strlit(".1");
    reveal_strlit(".bak.1");
    if keybox_file(engine_of(device.modules), device) is Ok {
        let path = keybox_file(engine_of(device.modules), device)->Ok_0;
        assert(path + ".bak"@ + ".1"@ == path + ".bak.1"@);
    }
}

/// A keybox is backed up if and only if the engine tells its place and it is there.
pub proof fn law_backing_up(device: Device, files: KeyboxFiles)
    ensures
        match keybox_file(engine_of(device.modules), device) {
            Err(refusal) => device_backup(device, files) == Err::<
                BackupView,
                KeyboxFailure<Seq<char>>,
            >(KeyboxFailure::Engine { refusal }),
            Ok(path) => {
                &&& files.exists ==> device_backup(device, files) is Ok && is_backup(
                    device_backup(device, files)->Ok_0,
                    path,
                    files.backup_exists,
                )
                &&& !files.exists ==> device_backup(device, files) == Err::<
                    BackupView,
                    KeyboxFailure<Seq<char>>,
                >(KeyboxFailure::NothingToBackUp { path })
            },
        },
{
    lemma_backup(device, files);
}

/// A custom keybox is installed as any other, if and only if validation passed it; else
/// nothing is installed, and the refusal tells what was found.
pub proof fn law_custom_keyboxes(
    device: Device,
    path: Seq<char>,
    found: CustomKeybox,
    digest: Seq<char>,
    files: KeyboxFiles,
)
    ensures
        ({
            let result = custom_install(device, path, found, digest, files);
            match found {
                CustomKeybox::Missing => result == Err::<InstallView, KeyboxFailure<Seq<char>>>(
                    KeyboxFailure::CustomMissing { path },
                ),
                CustomKeybox::Unparsable => result == Err::<InstallView, KeyboxFailure<Seq<char>>>(
                    KeyboxFailure::CustomUnparsable { path },
                ),
                CustomKeybox::Checked { report } => {
                    &&& report.ok ==> result == install_of(device, digest, files)
                    &&& !report.ok ==> result == Err::<InstallView, KeyboxFailure<Seq<char>>>(
                        KeyboxFailure::CustomRejected { summary: faults(report) },
                    )
                },
            }
        }),
{
}

/// A device has a keybox to keep if and only if the engine tells its place, and the file
/// there is valid.
pub proof fn law_kept_keybox(device: Device, files: KeyboxFiles)
    ensures
        is_kept(device, files) <==> keybox_file(engine_of(device.modules), device) is Ok
            && files.exists && files.valid,
{
}

/// An empty digest is none.
pub proof fn law_known_digest(digest: Seq<char>)
    ensures
        known_digest(None) is None,
        digest.len() == 0 ==> known_digest(Some(digest)) is None,
        digest.len() > 0 ==> known_digest(Some(digest)) == Some(digest),
{
}

/// A generated keybox is written as it is to the place that the engine tells; everyone may
/// read that of TrickyStore, and its owner alone that of TEESimulator. The file that it
/// replaces is copied beside itself. A failure of the generation is told first, and then
/// the refusal of a place.
pub proof fn law_installing_a_generated_keybox(
    xml: Seq<char>,
    failure: GenerateError,
    device: Device,
    exists: bool,
)
    ensures
        outcome_install(Err(failure), device, exists) == Err::<
            GenerateView,
            KeyboxFailure<Seq<char>>,
        >(KeyboxFailure::Generate { failure }),
        match keybox_file(engine_of(device.modules), device) {
            Err(refusal) => outcome_install(Ok(xml), device, exists) == Err::<
                GenerateView,
                KeyboxFailure<Seq<char>>,
            >(KeyboxFailure::Engine { refusal }),
            Ok(path) => outcome_install(Ok(xml), device, exists) matches Ok(plan) && {
                &&& plan.xml == xml
                &&& plan.target == path
                &&& exists ==> plan.backup == Some(path + ".bak"@)
                &&& !exists ==> plan.backup is None
                &&& engine_of(device.modules) == Engine::TrickyStore ==> plan.mode == 0o644
                &&& engine_of(device.modules) == Engine::TeeSimulatorV4 ==> plan.mode == 0o600
            },
        },
{
}

/// Two texts have the same letters, in either case on the left.
pub open spec fn has_letters_of(text: Seq<char>, word: Seq<char>) -> bool {
    text.len() == word.len() && forall|i: int|
        0 <= i < text.len() ==> (#[trigger] text[i] == word[i] && !('A' <= text[i] && text[i]
            <= 'Z')) || ('A' <= text[i] && text[i] <= 'Z' && text[i] as u32 + 32 == word[i] as u32)
}

proof fn lemma_same_char(a: char, b: char)
    requires
        a as u32 == b as u32,
    ensures
        a == b,
{
}

proof fn lemma_letters(text: Seq<char>, word: Seq<char>)
    ensures
        has_letters_of(text, word) <==> lowercase(text) == word,
{
    let lower = lowercase(text);
    if has_letters_of(text, word) {
        assert forall|i: int| 0 <= i < text.len() implies lower[i] == word[i] by {
            assert(text[i] == word[i] || 'A' <= text[i]);
            if 'A' <= text[i] && text[i] <= 'Z' {
                assert(lower[i] as u32 == text[i] as u32 + 32);
                lemma_same_char(lower[i], word[i]);
            }
        }
        assert(lower == word);
    }
    if lower == word {
        assert forall|i: int| 0 <= i < text.len() implies (#[trigger] text[i] == word[i] && !('A'
            <= text[i] && text[i] <= 'Z')) || ('A' <= text[i] && text[i] <= 'Z' && text[i] as u32
            + 32 == word[i] as u32) by {
            assert(lower[i] == word[i]);
        }
    }
}

/// A text names a source if and only if it has the letters of its name, in either case.
/// Settings that name none prefer the first.
pub proof fn law_source_names(text: Seq<char>)
    ensures
        source_of(text) == Some(KeyboxSource::Yurikey) <==> has_letters_of(text, "yurikey"@),
        source_of(text) == Some(KeyboxSource::Upstream) <==> has_letters_of(text, "upstream"@),
        source_of(text) == Some(KeyboxSource::Custom) <==> has_letters_of(text, "custom"@),
        preferred_source(text) == KeyboxSource::Upstream <==> has_letters_of(text, "upstream"@),
        preferred_source(text) == KeyboxSource::Custom <==> has_letters_of(text, "custom"@),
{
    reveal_strlit("yurikey");
    reveal_strlit("upstream");
    reveal_strlit("custom");
    lemma_letters(text, "yurikey"@);
    lemma_letters(text, "upstream"@);
    lemma_letters(text, "custom"@);
    assert("yurikey"@.len() == 7 && "upstream"@.len() == 8 && "custom"@.len() == 6);
}

/// The name of a source names it.
pub proof fn law_names_are_read_back(source: KeyboxSource)
    ensures
        source_of(label_of(source)) == Some(source),
{
    reveal_strlit("yurikey");
    reveal_strlit("upstream");
    reveal_strlit("custom");
    let word = label_of(source);
    assert(has_letters_of(word, word));
    law_source_names(word);
}

/// The sources that are not preferred are tried behind the preferred one, in one order:
/// first yurikey, then the upstream one, then the custom one.
pub proof fn law_order_of_the_others(preferred: KeyboxSource, i: int, k: int)
    requires
        1 <= i < k < 3,
    ensures
        source_order(preferred).len() == 3,
        source_order(preferred)[0] == preferred,
        source_order(preferred)[i] != preferred,
        source_order(preferred)[k] != preferred,
        source_order(preferred)[i] != KeyboxSource::Custom,
        source_order(preferred)[k] != KeyboxSource::Yurikey,
        source_order(preferred)[i] != source_order(preferred)[k],
{
}

/// A fetch goes on with the first source that is left, unless that is the custom one and
/// there is none; where no source is left, it looks for the keybox that is installed.
pub proof fn law_next_source(rest: Seq<KeyboxSource>, has_custom: bool)
    ensures
        rest.len() == 0 ==> trying(rest, has_custom).step == FetchStep::LookForExisting,
        rest.len() > 0 && rest[0] == KeyboxSource::Custom && !has_custom ==> trying(
            rest,
            has_custom,
        ) == trying(rest.drop_first(), has_custom),
        rest.len() > 0 && (rest[0] != KeyboxSource::Custom || has_custom) ==> trying(
            rest,
            has_custom,
        ) == (FetchView {
            rest: rest.drop_first(),
            has_custom,
            step: FetchStep::Download { source: rest[0] },
        }),
{
}

/// What a fetch does after each event: a valid keybox is installed, and nothing else is;
/// an installed one ends the fetch, and so does one that could not be installed; a source
/// that gave none makes way for the next; and what is installed is kept if it is valid.
pub proof fn law_events_of_a_fetch(state: FetchView, source: KeyboxSource)
    ensures
        state.step == (FetchStep::Download { source }) ==> {
            &&& after(state, FetchEvent::Checked { ok: true }) == (FetchView {
                step: FetchStep::Install { source },
                ..state
            })
            &&& after(state, FetchEvent::Checked { ok: false }) == trying(
                state.rest,
                state.has_custom,
            )
            &&& after(state, FetchEvent::NotParsed) == trying(state.rest, state.has_custom)
            &&& after(state, FetchEvent::NotDownloaded) == trying(state.rest, state.has_custom)
        },
        state.step == (FetchStep::Install { source }) ==> {
            &&& after(state, FetchEvent::Installed).step == (FetchStep::Finish {
                origin: Origin::Fetched { source },
            })
            &&& after(state, FetchEvent::NotInstalled).step == FetchStep::Abort
        },
        state.step == FetchStep::LookForExisting ==> {
            &&& after(state, FetchEvent::Existing { valid: true }).step == (FetchStep::Finish {
                origin: Origin::Existing,
            })
            &&& after(state, FetchEvent::Existing { valid: false }).step == FetchStep::Fail
        },
{
}

/// Validation is that of the file that is named, or else of the keybox of the device;
/// every other command asks for its own work.
pub proof fn law_keybox_commands(
    action: KeyboxAction,
    other: KeyboxAction,
    device: Device,
    path: String,
)
    ensures
        keybox_step(KeyboxAction::Validate { path: Some(path) }, device) == Ok::<
            KeyboxStepView,
            KeyboxFailure<Seq<char>>,
        >(KeyboxStepView::Validate { target: path@ }),
        match keybox_file(engine_of(device.modules), device) {
            Ok(target) => keybox_step(KeyboxAction::Validate { path: None }, device) == Ok::<
                KeyboxStepView,
                KeyboxFailure<Seq<char>>,
            >(KeyboxStepView::Validate { target }),
            Err(refusal) => keybox_step(KeyboxAction::Validate { path: None }, device) == Err::<
                KeyboxStepView,
                KeyboxFailure<Seq<char>>,
            >(KeyboxFailure::Engine { refusal }),
        },
        keybox_step(KeyboxAction::SetCustom { path }, device) == Ok::<
            KeyboxStepView,
            KeyboxFailure<Seq<char>>,
        >(KeyboxStepView::SetCustom { path: path@ }),
        action !is Validate ==> keybox_step(action, device) is Ok,
        action is Fetch ==> keybox_step(action, device)->Ok_0 is Fetch,
        action is Sources ==> keybox_step(action, device)->Ok_0 is PrintSources,
        action is Generate ==> keybox_step(action, device)->Ok_0 is Generate,
        action is Backup ==> keybox_step(action, device)->Ok_0 is Backup,
        keybox_step(action, device) is Ok && keybox_step(action, device) == keybox_step(
            other,
            device,
        ) ==> {
            &&& action is Fetch <==> other is Fetch
            &&& action is Validate <==> other is Validate
            &&& action is SetCustom <==> other is SetCustom
            &&& action is Sources <==> other is Sources
            &&& action is Generate <==> other is Generate
            &&& action is Backup <==> other is Backup
        },
{
}

/// The report of a fetch tells the source, and that of a custom keybox its path.
pub proof fn law_keybox_reports(source: Seq<char>, path: Seq<char>)
    ensures
        keybox_report(KeyboxStepView::Fetch, source) == Some("keybox fetched from "@ + source),
        keybox_report(KeyboxStepView::SetCustom { path }, source) == Some(
            "custom keybox installed from "@ + path,
        ),
{
}

/// A text is indented line by line: the pad stands before each line, and line feeds stand
/// between the lines.
pub proof fn law_indenting(line: Seq<char>, rest: Seq<char>, n: nat)
    requires
        !line.contains('\n'),
        line.len() == 0 || line.last() != '\r',
    ensures
        indented(seq![], n) == Seq::<char>::empty(),
        line.len() > 0 ==> indented(line, n) == spaces(n) + line,
        indented(line + seq!['\n'], n) == spaces(n) + line,
        lines_of(rest).len() > 0 ==> indented(line + seq!['\n'] + rest, n) == spaces(n) + line
            + seq!['\n'] + indented(rest, n),
{
    reveal_strlit("\n");
    assert("\n"@ == seq!['\n']);
    let none = Seq::<Seq<char>>::empty();
    let pad = spaces(n);
    assert(lines_of(Seq::<char>::empty()) == none);
    assert(padded(none, pad) == none);
    law_joining(none, none, "\n"@, pad + line);
    law_last_line(line);
    law_first_line(line, Seq::<char>::empty());
    law_first_line(line, rest);
    assert(line + seq!['\n'] + Seq::<char>::empty() == line + seq!['\n']);
    assert(seq![line] + none == seq![line]);
    assert(padded(seq![line], pad) == seq![pad + line]);
    let more = lines_of(rest);
    assert(padded(seq![line] + more, pad) == seq![pad + line] + padded(more, pad));
    if more.len() > 0 {
        law_joining(seq![pad + line], padded(more, pad), "\n"@, pad + line);
    }
}

/// The document holds the EC key, the certificate and the RSA key, each indented, in the
/// places that are meant for them.
pub proof fn law_keybox_document(ec_key: Seq<char>, cert: Seq<char>, rsa_key: Seq<char>)
    ensures
        ({
            let xml = keybox_xml(ec_key, cert, rsa_key);
            let head = XML_EC_KEY@ + indented(ec_key, 20);
            let middle = XML_CERTIFICATE@ + indented(cert, 24) + XML_RSA_KEY@;
            let tail = indented(rsa_key, 20) + XML_END@;
            &&& xml.len() == head.len() + middle.len() + tail.len()
            &&& head.is_prefix_of(xml)
            &&& xml.subrange(head.len() as int, (head.len() + middle.len()) as int) == middle
            &&& xml.skip((head.len() + middle.len()) as int) == tail
        }),
{
    let xml = keybox_xml(ec_key, cert, rsa_key);
    let head = XML_EC_KEY@ + indented(ec_key, 20);
    let middle = XML_CERTIFICATE@ + indented(cert, 24) + XML_RSA_KEY@;
    let tail = indented(rsa_key, 20) + XML_END@;
    assert(xml == head + middle + tail);
    assert(xml.take(head.len() as int) == head);
    assert(xml.subrange(head.len() as int, (head.len() + middle.len()) as int) == middle);
    assert(xml.skip((head.len() + middle.len()) as int) == tail);
}

/// A keybox that was generated is the document of an EC key that was made for `Android
/// Keybox`, of its certificate, and of an RSA key of 2048 bits.
pub proof fn law_generated_keybox(xml: Seq<char>)
    requires
        is_fresh_keybox(xml),
    ensures
        exists|
            certificate: rcgen::Certificate,
            cert: Seq<char>,
            key: rsa::RsaPrivateKey,
        |
            {
                &&& is_generated(certificate, "Android Keybox"@)
                &&& #[trigger] is_certificate_pem(certificate, cert)
                &&& modulus_bits(key) == 2048
                &&& #[trigger] rsa_key_pem(key) is Some
                &&& xml == keybox_xml(ec_key_pem(certificate), cert, rsa_key_pem(key)->0)
            },
{
    let (ec_key, cert, rsa_key) = choose|ec_key: Seq<char>, cert: Seq<char>, rsa_key: Seq<char>|
        {
            &&& #[trigger] is_fresh_certificate(ec_key, cert)
            &&& #[trigger] is_fresh_rsa_key(rsa_key)
            &&& xml == keybox_xml(ec_key, cert, rsa_key)
        };
    let certificate = choose|certificate: rcgen::Certificate|
        is_certificate_part(certificate, ec_key, cert);
    let key = choose|key: rsa::RsaPrivateKey| is_rsa_part(key, rsa_key);
    assert(is_certificate_part(certificate, ec_key, cert));
    assert(is_rsa_part(key, rsa_key));
    assert(is_certificate_pem(certificate, cert));
    assert(rsa_key_pem(key) is Some);
}

/// A key is told of if and only if it is not in order, and the keys are told of in their
/// order.
pub proof fn law_bad_keys(a: Seq<KeyReport>, b: Seq<KeyReport>, key: KeyReport)
    ensures
        bad_keys(seq![]) == Seq::<KeyReport>::empty(),
        bad_keys(a + b) == bad_keys(a) + bad_keys(b),
        bad_keys(seq![key]) == if key.ok {
            Seq::<KeyReport>::empty()
        } else {
            seq![key]
        },
    decreases b.len(),
{
    reveal(Seq::filter);
    let none = Seq::<KeyReport>::empty();
    assert(bad_keys(none) == none);
    let single = seq![key];
    assert(single.drop_last() == none);
    assert(bad_keys(single) == if key.ok {
        none
    } else {
        single
    });
    let all = a + b;
    if b.len() > 0 {
        law_bad_keys(a, b.drop_last(), key);
        assert(all.drop_last() == a + b.drop_last());
        assert(all.last() == b.last());
        assert(bad_keys(all) == bad_keys(a) + bad_keys(b));
    } else {
        assert(all == a);
        assert(bad_keys(a) + bad_keys(b) == bad_keys(a));
    }
}

/// The summaries of a report have a part for each key that is not in order: the algorithm
/// with the errors, or the place, the algorithm and the errors.
pub proof fn law_summaries(report: Report)
    ensures
        ({
            let bad = bad_keys(report.keys@);
            let short = Seq::new(
                bad.len(),
                |k: int| bad[k].algorithm@ + "="@ + joined(texts(bad[k].errors@), ","@),
            );
            let long = Seq::new(
                bad.len(),
                |k: int|
                    "Keybox#"@ + decimal(bad[k].keybox_index as nat) + "/Key#"@ + decimal(
                        bad[k].key_index as nat,
                    ) + " ("@ + bad[k].algorithm@ + "): "@ + joined(texts(bad[k].errors@), "; "@),
            );
            &&& rejection(report) == joined(short, "; "@)
            &&& faults(report) == joined(long, " | "@)
        }),
{
    let bad = bad_keys(report.keys@);
    let short = Seq::new(
        bad.len(),
        |k: int| bad[k].algorithm@ + "="@ + joined(texts(bad[k].errors@), ","@),
    );
    let long = Seq::new(
        bad.len(),
        |k: int|
            "Keybox#"@ + decimal(bad[k].keybox_index as nat) + "/Key#"@ + decimal(
                bad[k].key_index as nat,
            ) + " ("@ + bad[k].algorithm@ + "): "@ + joined(texts(bad[k].errors@), "; "@),
    );
    assert(bad.map_values(|key: KeyReport| short_line(key)) == short);
    assert(bad.map_values(|key: KeyReport| long_line(key)) == long);
}

/// A keybox at any place is backed up where it is there, and installed after a generation
/// in the same way.
pub proof fn law_backing_up_a_file(
    path: Seq<char>,
    files: KeyboxFiles,
    xml: Seq<char>,
    engine: Engine,
    exists: bool,
)
    ensures
        files.exists ==> target_backup(path, files) is Ok && is_backup(
            target_backup(path, files)->Ok_0,
            path,
            files.backup_exists,
        ),
        !files.exists ==> target_backup(path, files) == Err::<
            BackupView,
            KeyboxFailure<Seq<char>>,
        >(KeyboxFailure::NothingToBackUp { path }),
        ({
            let plan = generated_install(xml, engine, path, exists);
            &&& plan.xml == xml
            &&& plan.target == path
            &&& exists ==> plan.backup == Some(path + ".bak"@)
            &&& !exists ==> plan.backup is None
            &&& engine == Engine::TrickyStore ==> plan.mode == 0o644
            &&& engine == Engine::TeeSimulatorV4 ==> plan.mode == 0o600
        }),
{
    reveal_strlit(".bak");
    reveal_strlit(".1");
    reveal_strlit(".bak.1");
    assert(path + ".bak"@ + ".1"@ == path + ".bak.1"@);
}

/// A fetch begins with the order that the settings prefer, and counts the custom source
/// where the settings say where it is.
pub proof fn law_beginning_of_a_fetch(source: Seq<char>, custom_url: Seq<char>)
    ensures
        custom_url.len() > 0 ==> fetch_start(source, custom_url) == trying(
            source_order(preferred_source(source)),
            true,
        ),
        custom_url.len() == 0 ==> fetch_start(source, custom_url) == trying(
            source_order(preferred_source(source)),
            false,
        ),
{
}

/// A fetch tries the preferred source first, unless it is the custom one and the settings
/// do not say where that is; it then tries yurikey first.
pub proof fn law_first_source_of_a_fetch(source: Seq<char>, custom_url: Seq<char>)
    ensures
        preferred_source(source) != KeyboxSource::Custom || custom_url.len() > 0 ==> fetch_start(
            source,
            custom_url,
        ).step == (FetchStep::Download { source: preferred_source(source) }),
        preferred_source(source) == KeyboxSource::Custom && custom_url.len() == 0 ==> fetch_start(
            source,
            custom_url,
        ).step == (FetchStep::Download { source: KeyboxSource::Yurikey }),
{
    let order = source_order(preferred_source(source));
    law_next_source(order, custom_url.len() > 0);
    law_next_source(order.drop_first(), custom_url.len() > 0);
}

/// What a plan says is what it holds.
pub proof fn law_plans(backup: BackupPlan, plan: GeneratePlan, target: String, mode: u32)
    ensures
        backup@.target == backup.target@,
        backup@.copy == backup.copy@,
        match backup.rotated {
            Some(rotated) => backup@.rotated == Some(rotated@),
            None => backup@.rotated is None,
        },
        plan@.xml == plan.xml@,
        plan@.target == plan.target@,
        plan@.mode == plan.mode,
        match plan.backup {
            Some(copy) => plan@.backup == Some(copy@),
            None => plan@.backup is None,
        },
        InstallPlan::Identical@ == InstallView::Identical,
        (InstallPlan::Write { target, backup: Some(backup), mode })@ == (InstallView::Write {
            target: target@,
            backup: Some(backup@),
            mode,
        }),
        (InstallPlan::Write { target, backup: None, mode })@ == (InstallView::Write {
            target: target@,
            backup: None,
            mode,
        }),
{
}

} // verus!
