//! What a device offers as an LwM2M endpoint, and what is published of it.

use crate::device::Device;
use crate::device::PublicationState;
use crate::error::Error;
use crate::lwm2m::ObjectType;
use crate::lwm2m::Resource;
use crate::storage::value::ValueDescription;
use crate::utils;
use crate::utils::decimal_text;
use vstd::prelude::*;
use vstd::string::*;

verus! {

/// The one instance of each of some resources.
pub open spec fn single_instances(resources: Seq<Resource>) -> Seq<(Resource, usize)> {
    resources.map_values(|resource: Resource| (resource, 0usize))
}

/// The resources that are there for the values of a device.
pub open spec fn value_resources(descriptions: Seq<ValueDescription>) -> Seq<Resource> {
    descriptions.map_values(
        |description: ValueDescription| Resource::Lemonbeat(description.id as usize),
    )
}

/// The resources of an object.
pub open spec fn resources_of(device: Device, object: ObjectType) -> Seq<Resource> {
    match object {
        ObjectType::Device => seq![
            Resource::DeviceManufacturer,
            Resource::DeviceModelNumber,
            Resource::DeviceSerialNumber,
            Resource::DeviceFirmwareVersion,
            Resource::DeviceErrorCode,
            Resource::DeviceSupportedBindingAndModes,
            Resource::DeviceDeviceType,
            Resource::DeviceSoftwareVersion,
            Resource::DeviceHardwareVersion,
            Resource::DeviceUtcOffset,
        ],
        ObjectType::DataDownload => seq![
            Resource::DataDownloadSlot,
            Resource::DataDownloadChecksum,
            Resource::DataDownloadContentTag,
            Resource::DataDownloadStatus,
        ],
        ObjectType::FirmwareUpdate => seq![
            Resource::FirmwareUpdatePackage,
            Resource::FirmwareUpdatePackageUri,
            Resource::FirmwareUpdateUpdate,
            Resource::FirmwareUpdateState,
            Resource::FirmwareUpdateUpdateResult,
            Resource::FirmwareUpdateDeliveryMethod,
            Resource::FirmwareUpdatePkgVersion,
        ],
        ObjectType::Lemonbeat => value_resources(device.value_descriptions@),
        ObjectType::ConnectionStatus => seq![Resource::ConnectionStatusOnline],
        ObjectType::LemonbeatStatusMessage => seq![
            Resource::StatusMessageType,
            Resource::StatusMessageCode,
            Resource::StatusMessageLevel,
            Resource::StatusMessageData,
        ],
    }
}

/// The objects that a device has: those that every device has, then those that
/// only some have.
pub open spec fn objects_of(device: Device) -> Seq<ObjectType> {
    seq![
        ObjectType::Device,
        ObjectType::FirmwareUpdate,
        ObjectType::Lemonbeat,
        ObjectType::ConnectionStatus,
    ] + (if device.description.spec_is_cbtl() {
        seq![ObjectType::DataDownload]
    } else {
        Seq::empty()
    }) + (if device.persistent.status is Some {
        seq![ObjectType::LemonbeatStatusMessage]
    } else {
        Seq::empty()
    })
}

impl Device {
    /// Whether the device offers an object. Only some lawnmowers can download
    /// data.
    pub open spec fn offers(self, object: ObjectType) -> bool {
        object == ObjectType::DataDownload ==> self.description.spec_is_cbtl()
    }

    /// Makes sure that the device offers an object.
    pub fn get_object(&self, object: ObjectType) -> (res: Result<(), Error>)
        ensures
            res == (if self.offers(object) {
                Ok::<(), Error>(())
            } else {
                Err::<(), Error>(Error::Unsupported)
            }),
    {
        if object == ObjectType::DataDownload && !self.description.is_cbtl() {
            Err(Error::Unsupported)
        } else {
            Ok(())
        }
    }

    /// The objects of the device, each with its only instance.
    pub fn object_list(&self) -> (res: Vec<(ObjectType, usize)>)
        ensures
            res@ == objects_of(*self).map_values(|object: ObjectType| (object, 0usize)),
    {
        let mut res: Vec<(ObjectType, usize)> = Vec::new();
        res.push((ObjectType::Device, 0));
        res.push((ObjectType::FirmwareUpdate, 0));
        res.push((ObjectType::Lemonbeat, 0));
        res.push((ObjectType::ConnectionStatus, 0));
        if self.description.is_cbtl() {
            res.push((ObjectType::DataDownload, 0));
        }
        if self.persistent.status.is_some() {
            res.push((ObjectType::LemonbeatStatusMessage, 0));
        }
        assert(res@ =~= objects_of(*self).map_values(|object: ObjectType| (object, 0usize)));
        res
    }

    /// The resources of an object, each with its only instance.
    pub fn resource_instance_list(&self, object: ObjectType) -> (res: Vec<(Resource, usize)>)
        ensures
            res@ == single_instances(resources_of(*self, object)),
    {
        let mut res: Vec<(Resource, usize)> = Vec::new();
        match object {
            ObjectType::Device => {
                res.push((Resource::DeviceManufacturer, 0));
                res.push((Resource::DeviceModelNumber, 0));
                res.push((Resource::DeviceSerialNumber, 0));
                res.push((Resource::DeviceFirmwareVersion, 0));
                res.push((Resource::DeviceErrorCode, 0));
                res.push((Resource::DeviceSupportedBindingAndModes, 0));
                res.push((Resource::DeviceDeviceType, 0));
                res.push((Resource::DeviceSoftwareVersion, 0));
                res.push((Resource::DeviceHardwareVersion, 0));
                res.push((Resource::DeviceUtcOffset, 0));
            },
            ObjectType::DataDownload => {
                res.push((Resource::DataDownloadSlot, 0));
                res.push((Resource::DataDownloadChecksum, 0));
                res.push((Resource::DataDownloadContentTag, 0));
                res.push((Resource::DataDownloadStatus, 0));
            },
            ObjectType::FirmwareUpdate => {
                res.push((Resource::FirmwareUpdatePackage, 0));
                res.push((Resource::FirmwareUpdatePackageUri, 0));
                res.push((Resource::FirmwareUpdateUpdate, 0));
                res.push((Resource::FirmwareUpdateState, 0));
                res.push((Resource::FirmwareUpdateUpdateResult, 0));
                res.push((Resource::FirmwareUpdateDeliveryMethod, 0));
                res.push((Resource::FirmwareUpdatePkgVersion, 0));
            },
            ObjectType::Lemonbeat => {
                let mut i: usize = 0;
                while i < self.value_descriptions.len()
                    invariant
                        i <= self.value_descriptions@.len(),
                        res@.len() == i,
                        forall|k: int|
                            0 <= k < i ==> #[trigger] res@[k] == (
                                Resource::Lemonbeat(self.value_descriptions@[k].id as usize),
                                0usize,
                            ),
                    decreases self.value_descriptions@.len() - i,
                {
                    res.push((Resource::Lemonbeat(self.value_descriptions[i].id as usize), 0));
                    i += 1;
                }
            },
            ObjectType::ConnectionStatus => {
                res.push((Resource::ConnectionStatusOnline, 0));
            },
            ObjectType::LemonbeatStatusMessage => {
                res.push((Resource::StatusMessageType, 0));
                res.push((Resource::StatusMessageCode, 0));
                res.push((Resource::StatusMessageLevel, 0));
                res.push((Resource::StatusMessageData, 0));
            },
        }
        assert(res@ =~= single_instances(resources_of(*self, object)));
        res
    }

    /// Remembers that the device was announced as one that can be included, or
    /// that this announcement was taken back.
    pub fn on_includable_device_published(&mut self, deleted: bool)
        ensures
            *final(self) == (Device {
                publication_state: if deleted {
                    PublicationState::Invisible
                } else {
                    PublicationState::Includable
                },
                ..*old(self)
            }),
    {
        self.publication_state = if deleted {
            PublicationState::Invisible
        } else {
            PublicationState::Includable
        };
    }

    /// Whether the device may be announced as a whole: it has to be included.
    pub fn can_publish_endpoint(&self) -> (res: bool)
        ensures
            res == self.description.included,
    {
        self.description.included
    }

    /// Remembers that the device was announced as a whole.
    pub fn on_endpoint_published(&mut self)
        ensures
            *final(self) == (Device { publication_state: PublicationState::Ready, ..*old(self) }),
    {
        self.publication_state = PublicationState::Ready;
    }
}

/// The path of an object.
pub open spec fn object_path_text(object: Seq<char>, instance: nat) -> Seq<char> {
    object + "/"@ + utils::decimal(instance)
}

/// The path under which an object is published.
pub fn object_path(object: &str, instance: usize) -> (res: String)
    ensures
        res@ == object_path_text(object@, instance as nat),
{
    let mut res: String = object.to_owned();
    res.append("/");
    res.append(decimal_text(instance as u64).as_str());
    res
}

/// The path of a resource. The first instance goes without saying.
pub open spec fn resource_path_text(
    object: Seq<char>,
    instance: nat,
    resource: Seq<char>,
    resource_instance: nat,
) -> Seq<char> {
    object_path_text(object, instance) + "/"@ + resource + (if resource_instance == 0 {
        Seq::empty()
    } else {
        "/"@ + utils::decimal(resource_instance)
    })
}

/// The path under which a resource is published.
pub fn resource_path(object: &str, instance: usize, resource: &str, resource_instance: usize) -> (res:
    String)
    ensures
        res@ == resource_path_text(
            object@,
            instance as nat,
            resource@,
            resource_instance as nat,
        ),
{
    let mut res: String = object_path(object, instance);
    res.append("/");
    res.append(resource);
    if resource_instance != 0 {
        res.append("/");
        res.append(decimal_text(resource_instance as u64).as_str());
    }
    assert(res@ =~= resource_path_text(
        object@,
        instance as nat,
        resource@,
        resource_instance as nat,
    ));
    res
}

/// The path under which a value of a device is written.
pub fn value_path(name: &str) -> (res: String)
    ensures
        res@ == "lemonbeat/0/"@ + name@ + "/0"@,
{
    let mut res: String = "lemonbeat/0/".to_owned();
    res.append(name);
    res.append("/0");
    res
}

/// Every object that is listed is offered.
pub proof fn law_listed_objects_are_offered(device: Device, i: int)
    requires
        0 <= i < objects_of(device).len(),
    ensures
        device.offers(objects_of(device)[i]),
{
}

/// Each resource has one instance, number 0, in the order of the resources.
pub proof fn law_single_instances(resources: Seq<Resource>, i: int)
    ensures
        single_instances(resources).len() == resources.len(),
        0 <= i < resources.len() ==> single_instances(resources)[i] == (resources[i], 0usize),
{
}

/// The values of a device are resources under their ids, in their order.
pub proof fn law_values_are_resources(device: Device, i: int)
    ensures
        resources_of(device, ObjectType::Lemonbeat).len() == device.value_descriptions@.len(),
        0 <= i < device.value_descriptions@.len() ==> resources_of(device, ObjectType::Lemonbeat)[i]
            == Resource::Lemonbeat(device.value_descriptions@[i].id as usize),
{
}

/// Which resources the other objects have, whatever the device.
pub proof fn law_fixed_resources(device: Device)
    ensures
        resources_of(device, ObjectType::Device).len() == 10,
        resources_of(device, ObjectType::Device)[0] == Resource::DeviceManufacturer,
        resources_of(device, ObjectType::Device)[1] == Resource::DeviceModelNumber,
        resources_of(device, ObjectType::Device)[2] == Resource::DeviceSerialNumber,
        resources_of(device, ObjectType::Device)[3] == Resource::DeviceFirmwareVersion,
        resources_of(device, ObjectType::Device)[4] == Resource::DeviceErrorCode,
        resources_of(device, ObjectType::Device)[5] == Resource::DeviceSupportedBindingAndModes,
        resources_of(device, ObjectType::Device)[6] == Resource::DeviceDeviceType,
        resources_of(device, ObjectType::Device)[7] == Resource::DeviceSoftwareVersion,
        resources_of(device, ObjectType::Device)[8] == Resource::DeviceHardwareVersion,
        resources_of(device, ObjectType::Device)[9] == Resource::DeviceUtcOffset,
        resources_of(device, ObjectType::DataDownload).len() == 4,
        resources_of(device, ObjectType::DataDownload)[0] == Resource::DataDownloadSlot,
        resources_of(device, ObjectType::DataDownload)[1] == Resource::DataDownloadChecksum,
        resources_of(device, ObjectType::DataDownload)[2] == Resource::DataDownloadContentTag,
        resources_of(device, ObjectType::DataDownload)[3] == Resource::DataDownloadStatus,
        resources_of(device, ObjectType::FirmwareUpdate).len() == 7,
        resources_of(device, ObjectType::FirmwareUpdate)[0] == Resource::FirmwareUpdatePackage,
        resources_of(device, ObjectType::FirmwareUpdate)[1] == Resource::FirmwareUpdatePackageUri,
        resources_of(device, ObjectType::FirmwareUpdate)[2] == Resource::FirmwareUpdateUpdate,
        resources_of(device, ObjectType::FirmwareUpdate)[3] == Resource::FirmwareUpdateState,
        resources_of(device, ObjectType::FirmwareUpdate)[4] == Resource::FirmwareUpdateUpdateResult,
        resources_of(device, ObjectType::FirmwareUpdate)[5]
            == Resource::FirmwareUpdateDeliveryMethod,
        resources_of(device, ObjectType::FirmwareUpdate)[6] == Resource::FirmwareUpdatePkgVersion,
        resources_of(device, ObjectType::ConnectionStatus).len() == 1,
        resources_of(device, ObjectType::ConnectionStatus)[0] == Resource::ConnectionStatusOnline,
        resources_of(device, ObjectType::LemonbeatStatusMessage).len() == 4,
        resources_of(device, ObjectType::LemonbeatStatusMessage)[0] == Resource::StatusMessageType,
        resources_of(device, ObjectType::LemonbeatStatusMessage)[1] == Resource::StatusMessageCode,
        resources_of(device, ObjectType::LemonbeatStatusMessage)[2] == Resource::StatusMessageLevel,
        resources_of(device, ObjectType::LemonbeatStatusMessage)[3] == Resource::StatusMessageData,
{
}

/// Every device has four objects. Data can be downloaded to the devices of one
/// kind only, and there is a status message once one has come. No object is
/// listed twice.
pub proof fn law_which_objects_are_listed(device: Device, object: ObjectType)
    ensures
        objects_of(device).contains(object) <==> match object {
            ObjectType::DataDownload => device.description.spec_is_cbtl(),
            ObjectType::LemonbeatStatusMessage => device.persistent.status is Some,
            _ => true,
        },
        forall|i: int, j: int|
            0 <= i < j < objects_of(device).len() ==> #[trigger] objects_of(device)[i]
                != #[trigger] objects_of(device)[j],
        objects_of(device)[0] == ObjectType::Device,
        objects_of(device)[1] == ObjectType::FirmwareUpdate,
        objects_of(device)[2] == ObjectType::Lemonbeat,
        objects_of(device)[3] == ObjectType::ConnectionStatus,
        device.description.spec_is_cbtl() ==> objects_of(device)[4] == ObjectType::DataDownload,
        device.offers(object) <==> object != ObjectType::DataDownload
            || device.description.spec_is_cbtl(),
{
    let all = objects_of(device);
    assert(all[0] == ObjectType::Device);
    assert(all[1] == ObjectType::FirmwareUpdate);
    assert(all[2] == ObjectType::Lemonbeat);
    assert(all[3] == ObjectType::ConnectionStatus);
    let cbtl = device.description.spec_is_cbtl();
    if cbtl {
        assert(all[4] == ObjectType::DataDownload);
    }
    if device.persistent.status is Some {
        assert(all[if cbtl {
            5
        } else {
            4
        }] == ObjectType::LemonbeatStatusMessage);
    }
}

/// The parts of a path stand in their order, with a slash between them. The
/// instance of a resource is left out where it is number 0, and nowhere else.
pub proof fn law_paths(
    object: Seq<char>,
    instance: nat,
    resource: Seq<char>,
    resource_instance: nat,
)
    ensures
        object_path_text(object, instance) == object.push('/') + utils::decimal(instance),
        resource_path_text(object, instance, resource, 0) == object.push('/') + utils::decimal(
            instance,
        ).push('/') + resource,
        resource_instance > 0 ==> resource_path_text(object, instance, resource, resource_instance)
            == object.push('/') + utils::decimal(instance).push('/') + resource.push('/')
            + utils::decimal(resource_instance),
{
    reveal_strlit("/");
    assert("/"@ =~= seq!['/']);
    assert(object_path_text(object, instance) =~= object.push('/') + utils::decimal(instance));
    assert(resource_path_text(object, instance, resource, 0) =~= object.push('/') + utils::decimal(
        instance,
    ).push('/') + resource);
    assert(resource_instance > 0 ==> resource_path_text(
        object,
        instance,
        resource,
        resource_instance,
    ) =~= object.push('/') + utils::decimal(instance).push('/') + resource.push('/')
        + utils::decimal(resource_instance));
}

} // verus!
