# disk_image

The logic of the "create disk image" dialog of a disk utility, verified with Verus.

- `src/text.rs` — text operations over character sequences (leftmost replacement, character replacement, prefix test).
- `src/device.rs` — the device path as the disk service reports it (a nul-terminated UTF-8 byte string), optical drives, the device size request.
- `src/naming.rs` — the file name proposed for a new image and the filling of translated message templates.
- `src/copy.rs` — the copy of the device into the image: bytes read are written as read; a block whose read fails is read again sector by sector, and only the sectors that cannot be read become zeros and are counted; the checks made before the copy.
- `src/flow.rs` — the steps of creating an image, from the check for an existing file to closing the dialog.
- `app/` — the system side: the size request (ioctl), reserving room (fallocate), the read/write loop, translations, local time, and a dialog controller over abstract window and disk-service interfaces.
