//! Decision logic of the HTTP surface.
//!
//! The transport reads bodies and writes responses; everything the
//! handlers decide — validation, what command to queue, which status a
//! result maps to — lives here.  A rejected configuration push never
//! touches the pending scene.

use vstd::prelude::*;
use vstd::string::StringExecFns;
use crate::codec::{decode_resource, spec_decode_resource};
use crate::exchange::Mailbox;
use crate::scene::Configuration;
use crate::store::{CommandQueue, FlashError, FlashOperation, FlashReply, FLASH_QUEUE_CAPACITY};
use crate::style::{
    spec_built_styles, spec_styles_ok, CheckedScreenConfig, ScreenBuildError,
};

verus! {

/// Validates a pushed configuration and, only on success, replaces the
/// pending scene in the last-value-wins slot.  A rejected push returns
/// its error and leaves the slot untouched: no partial scene is ever
/// installed.
pub fn push_config(slot: &mut Mailbox<Option<CheckedScreenConfig>>, config: Configuration) -> (r:
    Result<(), ScreenBuildError>)
    requires
        config.text_styles.wf(),
    ensures
        r is Ok <==> (config.screens@.len() == 1 && spec_styles_ok(config.text_styles@)),
        r is Ok ==> (final(slot).slot matches Some(pushed) && (pushed matches Some(c) && c.screen
            == config.screens@[0] && c.styles@ == spec_built_styles(config.text_styles@)
            && c.styles.wf())),
        r is Err ==> *final(slot) == *old(slot),
        config.screens@.len() > 1 ==> (r matches Err(e) && e is TooManyScreens),
        config.screens@.len() == 0 ==> (r matches Err(e) && e is NoScreen),
        config.screens@.len() == 1 && !spec_styles_ok(config.text_styles@) ==> (r matches Err(e)
            && e is InvalidColorString),
{
    match CheckedScreenConfig::new(config) {
        Ok(checked) => {
            slot.signal(Some(checked));
            Ok(())
        },
        Err(e) => Err(e),
    }
}

/// Validates an uploaded blob: the body must be the wire form of a
/// resource; only then is a store command formed for it.  The blob is
/// stored as received.
pub fn upload_request(key: String, data: Vec<u8>) -> (r: Result<FlashOperation, String>)
    ensures
        spec_decode_resource(data@) is Some ==> (r matches Ok(op) && op == FlashOperation::Store(
            key,
            data,
        )),
        spec_decode_resource(data@) is None ==> (r matches Err(m) && m@
            == "Failed to deserialize postcard"@),
{
    match decode_resource(&data) {
        Some(_) => Ok(FlashOperation::Store(key, data)),
        None => Err(String::from_str("Failed to deserialize postcard")),
    }
}

/// A format request first clears the pending scene, then queues the
/// format command; reports whether the queue accepted it.
pub fn format_request(
    slot: &mut Mailbox<Option<CheckedScreenConfig>>,
    queue: &mut CommandQueue,
) -> (accepted: bool)
    requires
        old(queue).wf(),
    ensures
        final(queue).wf(),
        final(slot).slot matches Some(cleared) && cleared is None,
        old(queue)@.len() < FLASH_QUEUE_CAPACITY ==> accepted && final(queue)@ == old(
            queue,
        )@.push(FlashOperation::Format),
        old(queue)@.len() >= FLASH_QUEUE_CAPACITY ==> !accepted && final(queue)@ == old(queue)@,
{
    slot.signal(None);
    queue.try_send(FlashOperation::Format)
}

/// The HTTP status a store command's result maps to: 200 on success, 500
/// on any storage failure.
pub fn flash_result_status(r: &Result<FlashReply, FlashError>) -> (code: u16)
    ensures
        r is Ok ==> code == 200,
        r is Err ==> code == 500,
{
    match r {
        Ok(_) => 200,
        Err(_) => 500,
    }
}

/// The body reported for an existence probe; both answers are 200s.
pub fn exists_message(present: bool) -> (m: String)
    ensures
        present ==> m@ == "Item exists"@,
        !present ==> m@ == "Item does not exist"@,
{
    if present {
        String::from_str("Item exists")
    } else {
        String::from_str("Item does not exist")
    }
}

} // verus!
